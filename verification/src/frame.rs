//! Frame encoding and decoding.
//!
//! ```text
//! +--------+--------+--------+--------+--------+---------+--------+
//! |  SOF   |  LEN   |  SEQ   |  CRC8  | CMD_ID |  DATA   | CRC16  |
//! +--------+--------+--------+--------+--------+---------+--------+
//! | 1 byte | 2 byte | 1 byte | 1 byte | 2 byte | N bytes | 2 byte |
//! +--------+--------+--------+--------+--------+---------+--------+
//! ```
//!
//! `LEN` and `CMD_ID` are little-endian, `CRC8` covers `SOF`, `LEN` and `SEQ`,
//! and `CRC16` (little-endian) covers everything before it.

use core::marker::PhantomData;
use vstd::prelude::*;
use crate::error::{MarshalerError, PackError, UnPackError};
use crate::le::{le_bytes, le_value, lemma_le_bytes_len, lemma_le_field, lemma_le_value_2, lemma_le_bytes_of_value, lemma_le_value_of_bytes, lemma_le_value_bound, lemma_pow256_values, read_le, write_le};
use crate::marshaler::{ImplCommandMsg, ImplMarshal, ImplUnMarshal};
use crate::validator::{DjiValidator, Validator};

verus! {

/// Start-of-frame byte.
pub const SOF: u8 = 0xA5;

/// Size of the frame header (SOF, length, sequence, CRC8).
pub const HEAD_SIZE: usize = 5;

/// Size of the command ID field.
pub const CMDID_SIZE: usize = 2;

/// Size of the tail checksum.
pub const TAIL_SIZE: usize = 2;

/// Offset of the payload in a frame.
pub const PAYLOAD_OFFSET: usize = 7;

/// The size of a frame that carries `payload_size` payload bytes.
pub open spec fn frame_size(payload_size: nat) -> nat {
    (HEAD_SIZE + CMDID_SIZE + payload_size + TAIL_SIZE) as nat
}

/// The sequence number that follows `s`, wrapping after `u8::MAX`.
pub open spec fn next_sequence(s: u8) -> u8 {
    if s == u8::MAX {
        0
    } else {
        (s + 1) as u8
    }
}

/// The sequence number `k` steps after `s0`, wrapping after `u8::MAX`.
pub open spec fn sequence_after(s0: u8, k: nat) -> u8 {
    ((s0 + k) % 256) as u8
}

/// The sequence number after a run of `pack` calls from `s0`, where
/// `outcomes[i]` tells whether call `i` succeeded: by [`Messager::pack`]'s
/// contract a success advances it with [`next_sequence`] and a failure leaves it.
pub open spec fn counter_after(s0: u8, outcomes: Seq<bool>) -> u8
    decreases outcomes.len(),
{
    if outcomes.len() == 0 {
        s0
    } else {
        let c = counter_after(s0, outcomes.drop_last());
        if outcomes.last() {
            next_sequence(c)
        } else {
            c
        }
    }
}

/// The number of successes in `outcomes`.
pub open spec fn successes(outcomes: Seq<bool>) -> nat
    decreases outcomes.len(),
{
    if outcomes.len() == 0 {
        0
    } else {
        successes(outcomes.drop_last()) + if outcomes.last() {
            1nat
        } else {
            0nat
        }
    }
}

/// The bytes of a header that its checksum covers: SOF, payload length, sequence number.
pub open spec fn header_prefix(len: u16, seq: u8) -> Seq<u8> {
    seq![SOF] + le_bytes(len as nat, 2) + seq![seq]
}

/// The header of a frame with `len` payload bytes and sequence number `seq`.
pub open spec fn frame_header<V: Validator>(len: u16, seq: u8) -> Seq<u8> {
    header_prefix(len, seq).push(V::spec_crc8(header_prefix(len, seq)))
}

/// The part of a frame that the tail checksum covers.
pub open spec fn frame_body<V: Validator>(cmd_id: u16, seq: u8, payload: Seq<u8>) -> Seq<u8> {
    frame_header::<V>(payload.len() as u16, seq) + le_bytes(cmd_id as nat, 2) + payload
}

/// The complete frame that carries `payload` under `cmd_id` with sequence number `seq`.
pub open spec fn frame_bytes<V: Validator>(cmd_id: u16, seq: u8, payload: Seq<u8>) -> Seq<u8> {
    let body = frame_body::<V>(cmd_id, seq, payload);
    body + le_bytes(V::spec_crc16(body) as nat, 2)
}

/// A frame laid out with the checksum fields `crc8` and `crc16`, whatever they hold.
pub open spec fn frame_layout(
    cmd_id: u16,
    seq: u8,
    payload: Seq<u8>,
    crc8: u8,
    crc16: u16,
) -> Seq<u8> {
    header_prefix(payload.len() as u16, seq).push(crc8) + le_bytes(cmd_id as nat, 2) + payload
        + le_bytes(crc16 as nat, 2)
}

/// `s` starts with a frame of `n` bytes that announces its length correctly
/// and carries `payload` under `cmd_id` with sequence number `seq`; its
/// checksum fields are not looked at.
pub open spec fn frame_fields(s: Seq<u8>, cmd_id: u16, seq: u8, payload: Seq<u8>, n: usize) -> bool {
    &&& s.len() >= HEAD_SIZE
    &&& s[0] == SOF
    &&& n == frame_size(announced_len(s))
    &&& n <= s.len()
    &&& cmd_id == le_value(s.subrange(5, 7))
    &&& seq == s[3]
    &&& payload == s.subrange(PAYLOAD_OFFSET as int, PAYLOAD_OFFSET + announced_len(s))
}

/// `i` is the position of the first start-of-frame byte in `s`.
pub open spec fn is_first_sof(s: Seq<u8>, i: int) -> bool {
    &&& 0 <= i < s.len()
    &&& s[i] == SOF
    &&& forall|j: int| 0 <= j < i ==> s[j] != SOF
}

/// The payload length that the header at the start of `s` announces.
pub open spec fn announced_len(s: Seq<u8>) -> nat {
    le_value(s.subrange(1, 3))
}

/// What decoding the start of `s` gives: the command ID, sequence number,
/// payload and number of bytes consumed, or the error, with the checks made
/// in this order: start-of-frame byte, header length, header checksum,
/// frame length, frame checksum.
pub open spec fn spec_unpack<V: Validator>(s: Seq<u8>) -> Result<
    (u16, u8, Seq<u8>, usize),
    UnPackError,
> {
    if s.len() == 0 || s[0] != SOF {
        if exists|i: int| is_first_sof(s, i) {
            Err(UnPackError::ReSync { skip: (choose|i: int| is_first_sof(s, i)) as usize })
        } else {
            Err(UnPackError::MissingHeader { skip: s.len() as usize })
        }
    } else if s.len() < HEAD_SIZE {
        Err(UnPackError::UnexpectedEnd { read: s.len() as usize })
    } else if V::spec_crc8(s.take(4)) != s[4] {
        Err(UnPackError::InvalidChecksum { at: HEAD_SIZE })
    } else if s.len() < frame_size(announced_len(s)) {
        Err(UnPackError::UnexpectedEnd { read: s.len() as usize })
    } else if V::spec_crc16(s.take(PAYLOAD_OFFSET + announced_len(s))) != le_value(
        s.subrange(PAYLOAD_OFFSET + announced_len(s), frame_size(announced_len(s)) as int),
    ) {
        Err(UnPackError::InvalidChecksum { at: frame_size(announced_len(s)) as usize })
    } else {
        Ok(
            (
                le_value(s.subrange(5, 7)) as u16,
                s[3],
                s.subrange(PAYLOAD_OFFSET as int, PAYLOAD_OFFSET + announced_len(s)),
                frame_size(announced_len(s)) as usize,
            ),
        )
    }
}

/// What decoding a payload found under `cmd_id` into an `M` gives: the
/// command ID check, the length check, then what `M`'s unmarshal gives.
pub open spec fn frame_unmarshals_to<M: ImplUnMarshal>(
    cmd_id: u16,
    payload: Seq<u8>,
    r: Result<M, MarshalerError>,
) -> bool {
    if cmd_id != M::CMD_ID {
        r == Err::<M, MarshalerError>(
            MarshalerError::InvalidCmdID { expected: M::CMD_ID, found: cmd_id },
        )
    } else if payload.len() != M::PAYLOAD_SIZE {
        r == Err::<M, MarshalerError>(
            MarshalerError::InvalidDataLength {
                expected: M::PAYLOAD_SIZE as usize,
                found: payload.len() as usize,
            },
        )
    } else {
        M::unmarshals_to(payload, r)
    }
}

/// What decoding a frame at the start of `s` and then its payload into an
/// `M` gives: the decode error, or the frame's payload decoded as
/// [`frame_unmarshals_to`] says, with its error wrapped and its message
/// paired with the frame's length.
pub open spec fn messager_unmarshals_to<V: Validator, M: ImplUnMarshal>(
    s: Seq<u8>,
    r: Result<(M, usize), UnPackError>,
) -> bool {
    match spec_unpack::<V>(s) {
        Err(e) => r == Err::<(M, usize), UnPackError>(e),
        Ok((cmd_id, _seq, payload, n)) => match r {
            Ok((m, k)) => k == n && frame_unmarshals_to::<M>(cmd_id, payload, Ok(m)),
            Err(UnPackError::MarshalerError(e)) => frame_unmarshals_to::<M>(cmd_id, payload, Err(e)),
            Err(_) => false,
        },
    }
}

/// Frame encoder and decoder.
///
/// Holds the sequence number of the next frame it packs, which advances by
/// one (wrapping) with each frame packed. Generic over the [`Validator`]
/// that computes the checksums.
#[derive(Debug)]
pub struct Messager<V: Validator = DjiValidator> {
    sequence: u8,
    _marker: PhantomData<V>,
}

/// A checked, undecoded frame whose payload borrows from the input buffer.
#[derive(Debug)]
pub struct RawFrame<'t> {
    cmd_id: u16,
    sequence: u8,
    payload: &'t [u8],
}

impl<V: Validator> Messager<V> {
    /// The sequence number of the next frame packed.
    pub closed spec fn spec_sequence(&self) -> u8 {
        self.sequence
    }

    /// Creates a [`Messager`] whose next frame gets sequence number `seq`.
    pub fn new(seq: u8) -> (r: Self)
        ensures
            r.spec_sequence() == seq,
    {
        Messager { sequence: seq, _marker: PhantomData }
    }

    /// Completes a frame in `dst` whose payload a marshaler has written at
    /// offset 7 with result `marshaled`: checks that result, then writes the
    /// header, the command ID and the tail checksum around the payload and
    /// advances the sequence number. On an error nothing changes.
    pub fn pack_marshaled(
        &mut self,
        cmd_id: u16,
        payload_size: u16,
        marshaled: Result<usize, MarshalerError>,
        dst: &mut [u8],
    ) -> (r: Result<usize, PackError>)
        requires
            old(dst)@.len() >= frame_size(payload_size as nat),
        ensures
            match marshaled {
                Err(e) => {
                    &&& r == Err::<usize, PackError>(PackError::MarshalerError(e))
                    &&& final(dst)@ == old(dst)@
                    &&& final(self).spec_sequence() == old(self).spec_sequence()
                },
                Ok(size) => if size > u16::MAX {
                    &&& r == Err::<usize, PackError>(
                        PackError::InputTooLarge { max: u16::MAX as usize },
                    )
                    &&& final(dst)@ == old(dst)@
                    &&& final(self).spec_sequence() == old(self).spec_sequence()
                } else if size != payload_size {
                    &&& r == Err::<usize, PackError>(
                        PackError::InvalidPayloadSize {
                            expected: payload_size as usize,
                            found: size,
                        },
                    )
                    &&& final(dst)@ == old(dst)@
                    &&& final(self).spec_sequence() == old(self).spec_sequence()
                } else {
                    let total = frame_size(payload_size as nat);
                    let payload = old(dst)@.subrange(
                        PAYLOAD_OFFSET as int,
                        PAYLOAD_OFFSET + payload_size,
                    );
                    &&& r == Ok::<usize, PackError>(total as usize)
                    &&& final(dst)@ == frame_layout(
                        cmd_id,
                        old(self).spec_sequence(),
                        payload,
                        final(dst)@[4],
                        le_value(final(dst)@.subrange(total - 2, total as int)) as u16,
                    ) + old(dst)@.skip(total as int)
                    &&& V::obeys_crc_spec() ==> final(dst)@ == frame_bytes::<V>(
                        cmd_id,
                        old(self).spec_sequence(),
                        payload,
                    ) + old(dst)@.skip(total as int)
                    &&& final(self).spec_sequence() == next_sequence(old(self).spec_sequence())
                },
            },
    {
        let size = match marshaled {
            Err(e) => {
                return Err(PackError::MarshalerError(e));
            },
            Ok(size) => size,
        };
        if size > 0xFFFF {
            return Err(PackError::InputTooLarge { max: 0xFFFF });
        } else if size != payload_size as usize {
            return Err(PackError::InvalidPayloadSize { expected: payload_size as usize, found: size });
        }
        let ghost d0 = dst@;
        let ps = payload_size as usize;
        let total = PAYLOAD_OFFSET + ps + TAIL_SIZE;
        let sequence = self.sequence;

        dst[0] = SOF;
        write_le(dst, 1, payload_size as u64, 2);
        dst[3] = sequence;
        let ghost d1 = dst@;
        let crc8 = V::calculate_crc8(&dst[0..4]);
        dst[4] = crc8;
        let ghost d2 = dst@;
        write_le(dst, HEAD_SIZE, cmd_id as u64, 2);
        let ghost d3 = dst@;
        let crc16 = V::calculate_crc16(&dst[0..PAYLOAD_OFFSET + ps]);
        write_le(dst, PAYLOAD_OFFSET + ps, crc16 as u64, 2);

        self.sequence = if self.sequence == 0xFF {
            0
        } else {
            self.sequence + 1
        };
        proof {
            lemma_pow256_values();
            lemma_le_bytes_len(payload_size as nat, 2);
            lemma_le_bytes_len(cmd_id as nat, 2);
            lemma_le_bytes_len(crc16 as nat, 2);
            lemma_le_value_of_bytes(crc16 as nat, 2);
            let payload = d0.subrange(PAYLOAD_OFFSET as int, PAYLOAD_OFFSET + ps);
            let h = header_prefix(payload_size, sequence);
            assert(payload.len() as u16 == payload_size);
            assert(d1.take(4) =~= h);
            assert(d2.take(HEAD_SIZE as int) =~= h.push(crc8));
            assert(d3.take(PAYLOAD_OFFSET + ps) =~= d2.take(HEAD_SIZE as int) + le_bytes(
                cmd_id as nat,
                2,
            ) + payload);
            assert(dst@ =~= d3.take(PAYLOAD_OFFSET + ps) + le_bytes(crc16 as nat, 2) + d0.skip(
                total as int,
            ));
            assert(dst@.subrange(total - 2, total as int) =~= le_bytes(crc16 as nat, 2));
            assert(dst@ =~= frame_layout(cmd_id, sequence, payload, crc8, crc16) + d0.skip(
                total as int,
            ));
            if V::obeys_crc_spec() {
                assert(d2.take(HEAD_SIZE as int) =~= frame_header::<V>(payload_size, sequence));
                assert(d3.take(PAYLOAD_OFFSET + ps) =~= frame_body::<V>(cmd_id, sequence, payload));
                assert(dst@ =~= frame_bytes::<V>(cmd_id, sequence, payload) + d0.skip(
                    total as int,
                ));
            }
        }
        Ok(total)
    }

    /// Encodes `msg` into a frame at the start of `dst` and returns the frame's size.
    ///
    /// The payload is marshaled directly into `dst` at offset 7. After a
    /// frame is packed the sequence number advances by one, wrapping.
    pub fn pack<M: ImplMarshal>(&mut self, msg: &M, dst: &mut [u8]) -> (r: Result<
        usize,
        PackError,
    >)
        ensures
            ({
                let total = frame_size(M::PAYLOAD_SIZE as nat);
                if old(dst)@.len() < total {
                    &&& r == Err::<usize, PackError>(PackError::BufferTooSmall { need: total as usize })
                    &&& final(dst)@ == old(dst)@
                    &&& final(self).spec_sequence() == old(self).spec_sequence()
                } else {
                    &&& final(dst)@.len() == old(dst)@.len()
                    &&& final(dst)@.skip(total as int) == old(dst)@.skip(total as int)
                    &&& match r {
                        Ok(n) => {
                            &&& n == total
                            &&& msg.marshals_to(
                                final(dst)@.subrange(
                                    PAYLOAD_OFFSET as int,
                                    PAYLOAD_OFFSET + M::PAYLOAD_SIZE,
                                ),
                                Ok(M::PAYLOAD_SIZE as usize),
                            )
                            &&& final(dst)@.take(total as int) == frame_layout(
                                M::CMD_ID,
                                old(self).spec_sequence(),
                                final(dst)@.subrange(
                                    PAYLOAD_OFFSET as int,
                                    PAYLOAD_OFFSET + M::PAYLOAD_SIZE,
                                ),
                                final(dst)@[4],
                                le_value(final(dst)@.subrange(total - 2, total as int)) as u16,
                            )
                            &&& V::obeys_crc_spec() ==> final(dst)@.take(total as int)
                                == frame_bytes::<V>(
                                M::CMD_ID,
                                old(self).spec_sequence(),
                                final(dst)@.subrange(
                                    PAYLOAD_OFFSET as int,
                                    PAYLOAD_OFFSET + M::PAYLOAD_SIZE,
                                ),
                            )
                            &&& final(self).spec_sequence() == next_sequence(
                                old(self).spec_sequence(),
                            )
                        },
                        Err(e) => {
                            &&& final(self).spec_sequence() == old(self).spec_sequence()
                            &&& final(dst)@.take(PAYLOAD_OFFSET as int) == old(dst)@.take(
                                PAYLOAD_OFFSET as int,
                            )
                            &&& final(dst)@.skip(PAYLOAD_OFFSET + M::PAYLOAD_SIZE) == old(
                                dst,
                            )@.skip(PAYLOAD_OFFSET + M::PAYLOAD_SIZE)
                            &&& match e {
                                PackError::BufferTooSmall { .. } => false,
                                PackError::InputTooLarge { max } => {
                                    &&& max == u16::MAX
                                    &&& exists|size: usize|
                                        size > u16::MAX && #[trigger] msg.marshals_to(
                                            final(dst)@.subrange(
                                                PAYLOAD_OFFSET as int,
                                                PAYLOAD_OFFSET + M::PAYLOAD_SIZE,
                                            ),
                                            Ok(size),
                                        )
                                },
                                PackError::InvalidPayloadSize { expected, found } => {
                                    &&& expected == M::PAYLOAD_SIZE
                                    &&& found != expected
                                    &&& found <= u16::MAX
                                    &&& msg.marshals_to(
                                        final(dst)@.subrange(
                                            PAYLOAD_OFFSET as int,
                                            PAYLOAD_OFFSET + M::PAYLOAD_SIZE,
                                        ),
                                        Ok(found),
                                    )
                                },
                                PackError::MarshalerError(me) => msg.marshals_to(
                                    final(dst)@.subrange(
                                        PAYLOAD_OFFSET as int,
                                        PAYLOAD_OFFSET + M::PAYLOAD_SIZE,
                                    ),
                                    Err(me),
                                ),
                            }
                        },
                    }
                }
            }),
    {
        let payload_size = M::PAYLOAD_SIZE as usize;
        let total = PAYLOAD_OFFSET + payload_size + TAIL_SIZE;
        if dst.len() < total {
            return Err(PackError::BufferTooSmall { need: total });
        }
        let ghost d0 = dst@;
        let ghost mut written: Seq<u8>;
        let marshaled = {
            let (_head, rest) = dst.split_at_mut(PAYLOAD_OFFSET);
            let (payload, _tail) = rest.split_at_mut(payload_size);
            let m = msg.marshal(payload);
            proof {
                written = payload@;
                assert(written.take(payload_size as int) =~= written);
            }
            m
        };
        let ghost d1 = dst@;
        assert(d1.subrange(PAYLOAD_OFFSET as int, PAYLOAD_OFFSET + payload_size) =~= written);
        assert(d1.len() == d0.len());
        assert(d1.take(PAYLOAD_OFFSET as int) == d0.take(PAYLOAD_OFFSET as int));
        assert(d1.skip(PAYLOAD_OFFSET + payload_size) == d0.skip(PAYLOAD_OFFSET + payload_size));
        let r = self.pack_marshaled(M::CMD_ID, M::PAYLOAD_SIZE, marshaled, dst);
        proof {
            if r is Ok {
                let payload = d1.subrange(PAYLOAD_OFFSET as int, PAYLOAD_OFFSET + payload_size);
                lemma_frame_bytes_len::<V>(M::CMD_ID, old(self).spec_sequence(), payload);
                lemma_frame_layout_len(
                    M::CMD_ID,
                    old(self).spec_sequence(),
                    payload,
                    dst@[4],
                    le_value(dst@.subrange(total - 2, total as int)) as u16,
                );
                assert(dst@.take(total as int) =~= frame_layout(
                    M::CMD_ID,
                    old(self).spec_sequence(),
                    payload,
                    dst@[4],
                    le_value(dst@.subrange(total - 2, total as int)) as u16,
                ));
                if V::obeys_crc_spec() {
                    assert(dst@.take(total as int) =~= frame_bytes::<V>(
                        M::CMD_ID,
                        old(self).spec_sequence(),
                        payload,
                    ));
                }
                assert(dst@.subrange(PAYLOAD_OFFSET as int, PAYLOAD_OFFSET + payload_size)
                    =~= payload);
                assert(dst@.skip(total as int) =~= d0.skip(total as int));
            } else {
                assert(d1.skip(total as int) =~= d0.skip(total as int));
            }
        }
        r
    }

    /// Decodes and checks one frame at the start of `src`; returns it with the
    /// number of bytes it takes.
    ///
    /// Checks, in order: the start-of-frame byte, the header checksum, the
    /// frame checksum.
    pub fn unpack<'t>(&self, src: &'t [u8]) -> (r: Result<(RawFrame<'t>, usize), UnPackError>)
        ensures
            V::obeys_crc_spec() ==> match (r, spec_unpack::<V>(src@)) {
                (Ok((f, n)), Ok((cmd_id, seq, payload, m))) => {
                    &&& f.cmd_id() == cmd_id
                    &&& f.sequence() == seq
                    &&& f.payload()@ == payload
                    &&& n == m
                },
                (Err(e), Err(e2)) => e == e2,
                _ => false,
            },
            src@.len() < HEAD_SIZE || src@[0] != SOF ==> r == Err::<
                (RawFrame<'t>, usize),
                UnPackError,
            >(spec_unpack::<V>(src@)->Err_0) && spec_unpack::<V>(src@) is Err,
            r matches Ok((f, n)) ==> frame_fields(src@, f.cmd_id(), f.sequence(), f.payload()@, n),
            src@.len() == 0 ==> r == Err::<(RawFrame<'t>, usize), UnPackError>(
                UnPackError::MissingHeader { skip: 0 },
            ),
            src@.len() > 0 && src@[0] != SOF ==> match r {
                Err(UnPackError::ReSync { skip }) => {
                    &&& skip < src@.len()
                    &&& src@[skip as int] == SOF
                    &&& forall|j: int| 0 <= j < skip ==> src@[j] != SOF
                },
                Err(UnPackError::MissingHeader { skip }) => {
                    &&& skip == src@.len()
                    &&& forall|j: int| 0 <= j < src@.len() ==> src@[j] != SOF
                },
                _ => false,
            },
            src@.len() >= HEAD_SIZE && src@[0] == SOF ==> (r matches Err(e) ==> {
                ||| e == UnPackError::InvalidChecksum { at: HEAD_SIZE }
                ||| src@.len() < frame_size(announced_len(src@)) && e == UnPackError::UnexpectedEnd {
                    read: src@.len() as usize,
                }
                ||| src@.len() >= frame_size(announced_len(src@)) && e
                    == UnPackError::InvalidChecksum {
                    at: frame_size(announced_len(src@)) as usize,
                }
            }),
    {
        let len = src.len();
        if len == 0 || src[0] != SOF {
            let mut i: usize = 0;
            while i < len
                invariant
                    len == src@.len(),
                    len == 0 || src@[0] != SOF,
                    i <= len,
                    forall|j: int| 0 <= j < i ==> src@[j] != SOF,
                decreases len - i,
            {
                if src[i] == SOF {
                    proof {
                        assert(is_first_sof(src@, i as int));
                        lemma_first_sof_unique(src@, i as int);
                        assert(spec_unpack::<V>(src@) == Err::<(u16, u8, Seq<u8>, usize), UnPackError>(
                            UnPackError::ReSync { skip: i },
                        ));
                    }
                    return Err(UnPackError::ReSync { skip: i });
                }
                i = i + 1;
            }
            return Err(UnPackError::MissingHeader { skip: len });
        }
        if len < HEAD_SIZE {
            return Err(UnPackError::UnexpectedEnd { read: len });
        }
        let crc8 = V::calculate_crc8(&src[0..4]);
        if crc8 != src[4] {
            return Err(UnPackError::InvalidChecksum { at: HEAD_SIZE });
        }
        let length = read_le(src, 1, 2) as usize;
        proof {
            lemma_le_value_bound(src@.subrange(1, 3));
            lemma_pow256_values();
        }
        let end = PAYLOAD_OFFSET + length + TAIL_SIZE;
        if len < end {
            return Err(UnPackError::UnexpectedEnd { read: len });
        }
        let crc = read_le(src, PAYLOAD_OFFSET + length, 2);
        let calc = V::calculate_crc16(&src[0..PAYLOAD_OFFSET + length]);
        if calc as u64 != crc {
            return Err(UnPackError::InvalidChecksum { at: end });
        }
        let cmd_id = read_le(src, HEAD_SIZE, 2);
        proof {
            lemma_le_value_bound(src@.subrange(5, 7));
        }
        let frame = RawFrame {
            cmd_id: cmd_id as u16,
            sequence: src[3],
            payload: &src[PAYLOAD_OFFSET..PAYLOAD_OFFSET + length],
        };
        Ok((frame, end))
    }

    /// Decodes one frame at the start of `src` and its payload into an `M`;
    /// returns the message with the number of bytes the frame takes.
    pub fn unmarshal<'t, M: ImplUnMarshal>(&self, src: &'t [u8]) -> (r: Result<
        (M, usize),
        UnPackError,
    >)
        ensures
            V::obeys_crc_spec() ==> messager_unmarshals_to::<V, M>(src@, r),
            src@.len() < HEAD_SIZE || src@[0] != SOF ==> r == Err::<(M, usize), UnPackError>(
                spec_unpack::<V>(src@)->Err_0,
            ),
            r matches Ok((m, k)) ==> {
                let payload = src@.subrange(PAYLOAD_OFFSET as int, PAYLOAD_OFFSET + M::PAYLOAD_SIZE);
                &&& frame_fields(src@, M::CMD_ID, src@[3], payload, k)
                &&& M::unmarshals_to(payload, Ok(m))
            },
    {
        let (frame, cursor) = match self.unpack(src) {
            Ok(x) => x,
            Err(e) => {
                return Err(e);
            },
        };
        match frame.unmarshal::<M>() {
            Ok(m) => Ok((m, cursor)),
            Err(e) => Err(UnPackError::MarshalerError(e)),
        }
    }
}

impl<'t> RawFrame<'t> {
    pub closed spec fn spec_cmd_id(&self) -> u16 {
        self.cmd_id
    }

    pub closed spec fn spec_sequence(&self) -> u8 {
        self.sequence
    }

    pub closed spec fn spec_payload(&self) -> &'t [u8] {
        self.payload
    }

    /// Returns the command ID from the frame.
    #[verifier::when_used_as_spec(spec_cmd_id)]
    pub fn cmd_id(&self) -> (r: u16)
        ensures
            r == self.spec_cmd_id(),
    {
        self.cmd_id
    }

    /// Returns the sequence number from the frame header.
    #[verifier::when_used_as_spec(spec_sequence)]
    pub fn sequence(&self) -> (r: u8)
        ensures
            r == self.spec_sequence(),
    {
        self.sequence
    }

    /// Returns the payload bytes, borrowed from the decoded buffer.
    #[verifier::when_used_as_spec(spec_payload)]
    pub fn payload(&self) -> (r: &'t [u8])
        ensures
            r == self.spec_payload(),
    {
        self.payload
    }

    /// Decodes the payload into an `M` after checking that the command ID
    /// and the payload length are those of `M`.
    pub fn unmarshal<M: ImplUnMarshal>(&self) -> (r: Result<M, MarshalerError>)
        ensures
            frame_unmarshals_to::<M>(self.cmd_id(), self.payload()@, r),
    {
        if M::CMD_ID != self.cmd_id {
            return Err(MarshalerError::InvalidCmdID { expected: M::CMD_ID, found: self.cmd_id });
        }
        if self.payload.len() != M::PAYLOAD_SIZE as usize {
            return Err(
                MarshalerError::InvalidDataLength {
                    expected: M::PAYLOAD_SIZE as usize,
                    found: self.payload.len(),
                },
            );
        }
        M::unmarshal(self.payload)
    }
}

proof fn lemma_first_sof_unique(s: Seq<u8>, i: int)
    requires
        is_first_sof(s, i),
    ensures
        (choose|k: int| is_first_sof(s, k)) == i,
{
    let k = choose|k: int| is_first_sof(s, k);
    assert(is_first_sof(s, k));
    if k < i {
        assert(s[k] != SOF);
    } else if k > i {
        assert(s[i] != SOF);
    }
}

/// Some byte of `s` at or before `i` is the first start-of-frame byte.
proof fn lemma_first_sof_exists(s: Seq<u8>, i: int)
    requires
        0 <= i < s.len(),
        s[i] == SOF,
    ensures
        exists|k: int| is_first_sof(s, k),
    decreases i,
{
    if forall|j: int| 0 <= j < i ==> s[j] != SOF {
        assert(is_first_sof(s, i));
    } else {
        let j = choose|j: int| 0 <= j < i && s[j] == SOF;
        lemma_first_sof_exists(s, j);
    }
}

/// Resynchronising: on an input that does not start with a start-of-frame
/// byte, decoding tells to skip exactly to the first start-of-frame byte, so
/// that no complete frame after it is discarded; with none in the input, it
/// tells to skip the whole input.
pub proof fn lemma_unpack_resync<V: Validator>(s: Seq<u8>)
    requires
        s.len() > 0,
        s[0] != SOF,
        s.len() <= usize::MAX,
    ensures
        (exists|i: int| 0 <= i < s.len() && s[i] == SOF) ==> (spec_unpack::<V>(s) matches Err(
            UnPackError::ReSync { skip },
        ) && 0 < skip < s.len() && s[skip as int] == SOF && forall|j: int|
            0 <= j < skip ==> s[j] != SOF),
        !(exists|i: int| 0 <= i < s.len() && s[i] == SOF) ==> spec_unpack::<V>(s) == Err::<
            (u16, u8, Seq<u8>, usize),
            UnPackError,
        >(UnPackError::MissingHeader { skip: s.len() as usize }),
{
    if exists|i: int| 0 <= i < s.len() && s[i] == SOF {
        let i = choose|i: int| 0 <= i < s.len() && s[i] == SOF;
        lemma_first_sof_exists(s, i);
        let k = choose|k: int| is_first_sof(s, k);
        assert(is_first_sof(s, k));
        assert(k != 0);
    } else {
        assert(!exists|k: int| is_first_sof(s, k));
    }
}

/// Wire layout of a frame: byte 0 is the start-of-frame byte 0xA5, bytes 1
/// and 2 the payload length, byte 3 the sequence number, byte 4 the header
/// checksum, bytes 5 and 6 the command ID, then the payload, then the two
/// bytes of the tail checksum; every two-byte field least significant byte
/// first.
pub proof fn lemma_frame_layout_bytes(cmd_id: u16, seq: u8, payload: Seq<u8>, crc8: u8, crc16: u16)
    requires
        payload.len() <= u16::MAX,
    ensures
        ({
            let f = frame_layout(cmd_id, seq, payload, crc8, crc16);
            let n = payload.len() as int;
            &&& f.len() == n + 9
            &&& f[0] == 0xA5
            &&& f[1] + 256 * f[2] == n
            &&& f[3] == seq
            &&& f[4] == crc8
            &&& f[5] + 256 * f[6] == cmd_id
            &&& forall|i: int| 0 <= i < n ==> #[trigger] f[7 + i] == payload[i]
            &&& f[7 + n] + 256 * f[8 + n] == crc16
        }),
{
    let f = frame_layout(cmd_id, seq, payload, crc8, crc16);
    let n = payload.len() as int;
    lemma_pow256_values();
    lemma_le_bytes_len(payload.len() as u16 as nat, 2);
    lemma_le_bytes_len(cmd_id as nat, 2);
    lemma_le_bytes_len(crc16 as nat, 2);
    assert(f.subrange(1, 3) == le_bytes(payload.len() as u16 as nat, 2));
    lemma_le_field(f, 1, payload.len() as u16 as nat, 2);
    assert(f.subrange(5, 7) == le_bytes(cmd_id as nat, 2));
    lemma_le_field(f, 5, cmd_id as nat, 2);
    assert(f.subrange(7 + n, 9 + n) == le_bytes(crc16 as nat, 2));
    lemma_le_field(f, 7 + n, crc16 as nat, 2);
    assert forall|i: int| 0 <= i < n implies #[trigger] f[7 + i] == payload[i] by {
    }
}

/// The frame that packing writes: the layout of [`lemma_frame_layout_bytes`],
/// with the header checksum over bytes 0 to 3 at byte 4 and the tail checksum
/// over every byte before it at the end.
pub proof fn lemma_frame_bytes_checksums<V: Validator>(cmd_id: u16, seq: u8, payload: Seq<u8>)
    requires
        payload.len() <= u16::MAX,
    ensures
        ({
            let f = frame_bytes::<V>(cmd_id, seq, payload);
            let n = payload.len() as int;
            &&& f == frame_layout(
                cmd_id,
                seq,
                payload,
                V::spec_crc8(f.take(4)),
                V::spec_crc16(f.take(7 + n)),
            )
            &&& f[4] == V::spec_crc8(f.take(4))
            &&& f[7 + n] + 256 * f[8 + n] == V::spec_crc16(f.take(7 + n))
        }),
{
    let f = frame_bytes::<V>(cmd_id, seq, payload);
    let n = payload.len() as int;
    lemma_le_bytes_len(payload.len() as u16 as nat, 2);
    lemma_le_bytes_len(cmd_id as nat, 2);
    let body = frame_body::<V>(cmd_id, seq, payload);
    lemma_le_bytes_len(V::spec_crc16(body) as nat, 2);
    assert(f.take(4) == header_prefix(payload.len() as u16, seq));
    assert(f.take(7 + n) == body);
    let g = frame_layout(cmd_id, seq, payload, V::spec_crc8(f.take(4)), V::spec_crc16(f.take(7 + n)));
    assert(f =~= g);
    lemma_frame_layout_bytes(cmd_id, seq, payload, V::spec_crc8(f.take(4)), V::spec_crc16(f.take(7 + n)));
}

/// What decoding reads from a frame it accepts: the command ID from bytes 5
/// and 6, the sequence number from byte 3, the payload from byte 7 on, as
/// many bytes as bytes 1 and 2 announce, and the frame's length as that
/// count plus 9; byte 0 is 0xA5, byte 4 the header checksum of bytes 0 to 3
/// and the two bytes after the payload the tail checksum of all before them.
pub proof fn lemma_unpack_fields<V: Validator>(s: Seq<u8>)
    requires
        spec_unpack::<V>(s) is Ok,
    ensures
        ({
            let (cmd_id, seq, payload, size) = spec_unpack::<V>(s)->Ok_0;
            let n = s[1] + 256 * s[2];
            &&& s[0] == 0xA5
            &&& size == n + 9
            &&& size <= s.len()
            &&& cmd_id == s[5] + 256 * s[6]
            &&& seq == s[3]
            &&& payload == s.subrange(7, 7 + n)
            &&& s[4] == V::spec_crc8(s.take(4))
            &&& s[7 + n] + 256 * s[8 + n] == V::spec_crc16(s.take(7 + n))
        }),
{
    let n = s[1] + 256 * s[2];
    lemma_le_value_2(s.subrange(1, 3));
    lemma_le_value_2(s.subrange(5, 7));
    assert(announced_len(s) == n);
    lemma_le_value_2(s.subrange(7 + n, 9 + n));
}

/// A laid-out frame is `payload.len() + 9` bytes long.
pub proof fn lemma_frame_layout_len(cmd_id: u16, seq: u8, payload: Seq<u8>, crc8: u8, crc16: u16)
    ensures
        frame_layout(cmd_id, seq, payload, crc8, crc16).len() == frame_size(payload.len()),
{
    lemma_le_bytes_len(payload.len() as u16 as nat, 2);
    lemma_le_bytes_len(cmd_id as nat, 2);
    lemma_le_bytes_len(crc16 as nat, 2);
}

/// A frame is `payload.len() + 9` bytes long.
pub proof fn lemma_frame_bytes_len<V: Validator>(cmd_id: u16, seq: u8, payload: Seq<u8>)
    ensures
        frame_header::<V>(payload.len() as u16, seq).len() == HEAD_SIZE,
        frame_body::<V>(cmd_id, seq, payload).len() == PAYLOAD_OFFSET + payload.len(),
        frame_bytes::<V>(cmd_id, seq, payload).len() == frame_size(payload.len()),
{
    lemma_le_bytes_len(payload.len() as u16 as nat, 2);
    lemma_le_bytes_len(cmd_id as nat, 2);
    lemma_le_bytes_len(V::spec_crc16(frame_body::<V>(cmd_id, seq, payload)) as nat, 2);
}


/// What `pack` writes `unpack` reads back: decoding a frame, whatever bytes
/// follow it, gives the frame's command ID, sequence number and payload, and
/// consumes exactly the frame.
#[verifier::spinoff_prover]
pub proof fn lemma_unpack_frame<V: Validator>(
    cmd_id: u16,
    seq: u8,
    payload: Seq<u8>,
    rest: Seq<u8>,
)
    requires
        payload.len() <= u16::MAX,
    ensures
        spec_unpack::<V>(frame_bytes::<V>(cmd_id, seq, payload) + rest) == Ok::<
            (u16, u8, Seq<u8>, usize),
            UnPackError,
        >((cmd_id, seq, payload, frame_size(payload.len()) as usize)),
{
    lemma_frame_bytes_len::<V>(cmd_id, seq, payload);
    lemma_pow256_values();
    let len = payload.len();
    let h = seq![SOF] + le_bytes(len as u16 as nat, 2) + seq![seq];
    let body = frame_body::<V>(cmd_id, seq, payload);
    let crc16 = V::spec_crc16(body);
    let s = frame_bytes::<V>(cmd_id, seq, payload) + rest;
    assert(s.take(4) =~= h);
    assert(s.subrange(1, 3) =~= le_bytes(len as u16 as nat, 2));
    lemma_le_value_of_bytes(len as u16 as nat, 2);
    assert(announced_len(s) == len);
    assert(s.take(PAYLOAD_OFFSET + len) =~= body);
    lemma_le_bytes_len(crc16 as nat, 2);
    assert(s.subrange(PAYLOAD_OFFSET + len, frame_size(len) as int) =~= le_bytes(crc16 as nat, 2));
    lemma_le_value_of_bytes(crc16 as nat, 2);
    assert(s.subrange(5, 7) =~= le_bytes(cmd_id as nat, 2));
    lemma_le_value_of_bytes(cmd_id as nat, 2);
    assert(s.subrange(PAYLOAD_OFFSET as int, PAYLOAD_OFFSET + len) =~= payload);
}

/// The bytes that a successful decode consumes are exactly the frame of what it returns.
#[verifier::spinoff_prover]
pub proof fn lemma_unpacked_is_frame<V: Validator>(s: Seq<u8>)
    requires
        spec_unpack::<V>(s) is Ok,
    ensures
        ({
            let (cmd_id, seq, payload, n) = spec_unpack::<V>(s)->Ok_0;
            &&& payload.len() <= u16::MAX
            &&& s.take(n as int) == frame_bytes::<V>(cmd_id, seq, payload)
        }),
{
    lemma_pow256_values();
    let len = announced_len(s);
    let (cmd_id, seq, payload, n) = spec_unpack::<V>(s)->Ok_0;
    lemma_le_value_bound(s.subrange(1, 3));
    lemma_le_value_bound(s.subrange(5, 7));
    lemma_le_value_bound(s.subrange(PAYLOAD_OFFSET + len, frame_size(len) as int));
    lemma_le_bytes_of_value(s.subrange(1, 3));
    lemma_le_bytes_of_value(s.subrange(5, 7));
    lemma_le_bytes_of_value(s.subrange(PAYLOAD_OFFSET + len, frame_size(len) as int));
    lemma_frame_bytes_len::<V>(cmd_id, seq, payload);
    let h = seq![SOF] + le_bytes(len as u16 as nat, 2) + seq![seq];
    assert(s.take(4) =~= h);
    assert(s.take(HEAD_SIZE as int) =~= frame_header::<V>(len as u16, seq));
    assert(s.take(PAYLOAD_OFFSET + len) =~= frame_body::<V>(cmd_id, seq, payload));
    assert(s.take(n as int) =~= frame_bytes::<V>(cmd_id, seq, payload));
}

/// Decoding reads no byte beyond the frame it returns: with those bytes kept,
/// anything may follow them.
pub proof fn lemma_unpack_prefix<V: Validator>(s: Seq<u8>, rest: Seq<u8>)
    requires
        spec_unpack::<V>(s) is Ok,
    ensures
        spec_unpack::<V>(s.take(spec_unpack::<V>(s)->Ok_0.3 as int) + rest) == spec_unpack::<V>(s),
{
    let (cmd_id, seq, payload, n) = spec_unpack::<V>(s)->Ok_0;
    lemma_unpacked_is_frame::<V>(s);
    lemma_unpack_frame::<V>(cmd_id, seq, payload, rest);
}

/// A decode error never tells to discard more bytes than the input holds, and
/// tells to discard at least one byte of a non-empty input unless the frame is
/// only incomplete.
pub proof fn lemma_unpack_skip<V: Validator>(s: Seq<u8>)
    requires
        spec_unpack::<V>(s) is Err,
        s.len() <= usize::MAX,
    ensures
        spec_unpack::<V>(s)->Err_0.skip() <= s.len(),
        s.len() > 0 && !(spec_unpack::<V>(s)->Err_0 is UnexpectedEnd) ==> spec_unpack::<V>(
            s,
        )->Err_0.skip() > 0,
{
    if s.len() == 0 || s[0] != SOF {
        if exists|i: int| is_first_sof(s, i) {
            let i = choose|i: int| is_first_sof(s, i);
            assert(is_first_sof(s, i));
            if s.len() > 0 {
                assert(i != 0);
            }
        }
    }
}


/// Decoding a frame into a message is decoding the frame and then its
/// payload: the result is the decode error, or what decoding the frame's
/// payload gives, its message paired with the frame's length and its error
/// wrapped.
pub proof fn lemma_unmarshal_is_unpack_then_frame<V: Validator, M: ImplUnMarshal>(
    s: Seq<u8>,
    r: Result<(M, usize), UnPackError>,
)
    ensures
        messager_unmarshals_to::<V, M>(s, r) <==> match spec_unpack::<V>(s) {
            Err(e) => r == Err::<(M, usize), UnPackError>(e),
            Ok((cmd_id, _seq, payload, n)) => exists|fr: Result<M, MarshalerError>|
                #[trigger] frame_unmarshals_to::<M>(cmd_id, payload, fr) && r == match fr {
                    Ok(m) => Ok::<(M, usize), UnPackError>((m, n)),
                    Err(e) => Err::<(M, usize), UnPackError>(UnPackError::MarshalerError(e)),
                },
        },
{
    if let Ok((cmd_id, _seq, payload, n)) = spec_unpack::<V>(s) {
        if messager_unmarshals_to::<V, M>(s, r) {
            let fr = match r {
                Ok((m, _k)) => Ok::<M, MarshalerError>(m),
                Err(UnPackError::MarshalerError(e)) => Err::<M, MarshalerError>(e),
                Err(_) => arbitrary(),
            };
            assert(frame_unmarshals_to::<M>(cmd_id, payload, fr));
        }
    }
}


/// Successive packs number their frames `s0`, `s0 + 1`, … wrapping after
/// `u8::MAX`, and failing packs leave the counter alone: after any run of
/// calls the counter is `s0` advanced by the number of successes, so the
/// frame of the `k`-th success carries `sequence_after(s0, k - 1)`.
pub proof fn lemma_sequence_counts(s0: u8, outcomes: Seq<bool>)
    ensures
        counter_after(s0, outcomes) == sequence_after(s0, successes(outcomes)),
    decreases outcomes.len(),
{
    if outcomes.len() > 0 {
        lemma_sequence_counts(s0, outcomes.drop_last());
    }
}

} // verus!
