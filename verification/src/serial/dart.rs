//! `0x0105` — dart launch information, sent at 1 Hz.

use vstd::prelude::*;
use crate::error::MarshalerError;
use crate::le::{le_bytes, lemma_le_bytes_len, lemma_le_field, lemma_le_bytes_of_value, lemma_le_value_bound, lemma_le_value_of_bytes, lemma_pow256_values, read_le, splice, write_le};
use crate::marshaler::{lemma_command_msg_of, ImplCommandMsg, Marshaler};

verus! {

/// Dart launch information.
#[derive(Debug, Clone, Copy)]
pub struct DartInfo {
    remaining_time: u8,
    dart_info: u16,
}

impl DartInfo {
    pub closed spec fn spec_remaining_time(&self) -> u8 {
        self.remaining_time
    }

    pub closed spec fn spec_dart_info(&self) -> u16 {
        self.dart_info
    }

    /// The payload bytes of this message.
    pub open spec fn spec_payload(&self) -> Seq<u8> {
        seq![self.remaining_time()] + le_bytes(self.dart_info() as nat, 2)
    }

    pub fn new(remaining_time: u8, dart_info: u16) -> (r: DartInfo)
        ensures
            r.remaining_time() == remaining_time,
            r.dart_info() == dart_info,
    {
        DartInfo { remaining_time, dart_info }
    }

    /// Remaining time of the own dart launch, in seconds.
    #[verifier::when_used_as_spec(spec_remaining_time)]
    pub fn remaining_time(&self) -> (r: u8)
        ensures
            r == self.spec_remaining_time(),
    {
        self.remaining_time
    }

    /// Dart information: bits 0..=2 last target hit by the own dart, 3..=5
    /// hit count of the opponent's last hit target, 6..=8 selected target,
    /// 9..=15 reserved.
    #[verifier::when_used_as_spec(spec_dart_info)]
    pub fn dart_info(&self) -> (r: u16)
        ensures
            r == self.spec_dart_info(),
    {
        self.dart_info
    }

    /// Two messages with the same payload bytes are the same message, so
    /// unmarshaling what marshaling writes gives the message back.
    pub proof fn lemma_payload_injective(a: DartInfo, b: DartInfo)
        requires
            a.spec_payload() == b.spec_payload(),
        ensures
            a == b,
    {
        lemma_pow256_values();
        lemma_le_bytes_len(a.dart_info as nat, 2);
        lemma_le_bytes_len(b.dart_info as nat, 2);
        assert(a.spec_payload().subrange(1, 3) == le_bytes(a.dart_info as nat, 2));
        assert(b.spec_payload().subrange(1, 3) == le_bytes(b.dart_info as nat, 2));
        lemma_le_value_of_bytes(a.dart_info as nat, 2);
        lemma_le_value_of_bytes(b.dart_info as nat, 2);
        assert(a.spec_payload()[0] == a.remaining_time);
        assert(b.spec_payload()[0] == b.remaining_time);
    }

    /// Wire layout: the payload is three bytes: the remaining time, then the
    /// dart information, least significant byte first.
    pub proof fn lemma_payload_layout(m: DartInfo)
        ensures
            m.spec_payload().len() == 3,
            m.remaining_time() == m.spec_payload()[0],
            m.dart_info() == m.spec_payload()[1] + 256 * m.spec_payload()[2],
    {
        lemma_pow256_values();
        let p = m.spec_payload();
        lemma_le_bytes_len(m.dart_info as nat, 2);
        assert(p[0] == m.remaining_time);
        assert(p.subrange(1, 3) == le_bytes(m.dart_info as nat, 2));
        lemma_le_field(p, 1, m.dart_info as nat, 2);
    }

    /// Marshaling writes the remaining time at byte 0 and the dart
    /// information at bytes 1 and 2, least significant byte first.
    pub proof fn lemma_marshal_layout(m: DartInfo, payload: Seq<u8>, r: Result<usize, MarshalerError>)
        requires
            <DartInfo as Marshaler>::marshals_to(&m, payload, r),
        ensures
            r == Ok::<usize, MarshalerError>(3),
            payload.len() == 3,
            m.remaining_time() == payload[0],
            m.dart_info() == payload[1] + 256 * payload[2],
    {
        Self::lemma_payload_layout(m);
    }

    /// Unmarshaling three payload bytes always succeeds and reads the
    /// remaining time from byte 0 and the dart information from bytes 1 and 2,
    /// least significant byte first.
    pub proof fn lemma_unmarshal_layout(raw: Seq<u8>, r: Result<DartInfo, MarshalerError>)
        requires
            raw.len() >= 3,
            <DartInfo as Marshaler>::unmarshals_to(raw, r),
        ensures
            r is Ok,
            r->Ok_0.remaining_time() == raw[0],
            r->Ok_0.dart_info() == raw[1] + 256 * raw[2],
    {
        let m = r->Ok_0;
        Self::lemma_payload_layout(m);
        assert(m.spec_payload() == raw.take(3));
    }

    /// The command ID and payload size of this message.
    pub proof fn lemma_command_msg()
        ensures
            <DartInfo as Marshaler>::CMD_ID == 0x0105,
            <DartInfo as Marshaler>::PAYLOAD_SIZE == 3,
            <DartInfo as ImplCommandMsg>::CMD_ID == 0x0105,
            <DartInfo as ImplCommandMsg>::PAYLOAD_SIZE == 3,
    {
        lemma_command_msg_of::<DartInfo>();
    }

    /// Unmarshaling what marshaling writes gives the message back.
    pub proof fn lemma_roundtrip(m: DartInfo, payload: Seq<u8>, r: Result<DartInfo, MarshalerError>)
        requires
            <DartInfo as Marshaler>::marshals_to(&m, payload, Ok(3)),
            <DartInfo as Marshaler>::unmarshals_to(payload, r),
        ensures
            r == Ok::<DartInfo, MarshalerError>(m),
    {
        lemma_le_bytes_len(m.dart_info as nat, 2);
        let m2 = r->Ok_0;
        assert(payload.take(3) =~= payload);
        Self::lemma_payload_injective(m, m2);
    }
}

impl Marshaler for DartInfo {
    const CMD_ID: u16 = 0x0105;
    const PAYLOAD_SIZE: u16 = 3;

    open spec fn marshals_to(&self, payload: Seq<u8>, r: Result<usize, MarshalerError>) -> bool {
        r == Ok::<usize, MarshalerError>(3) && payload == self.spec_payload()
    }

    open spec fn unmarshals_to(raw: Seq<u8>, r: Result<Self, MarshalerError>) -> bool {
        r matches Ok(m) && m.spec_payload() == raw.take(3)
    }

    fn marshal(&self, dst: &mut [u8]) -> (r: Result<usize, MarshalerError>)
        ensures
            r == Ok::<usize, MarshalerError>(3),
            final(dst)@ == splice(old(dst)@, 0, self.spec_payload()),
    {
        proof {
            lemma_le_bytes_len(self.dart_info as nat, 2);
        }
        let ghost d0 = dst@;
        dst[0] = self.remaining_time;
        write_le(dst, 1, self.dart_info as u64, 2);
        assert(dst@ =~= splice(d0, 0, self.spec_payload()));
        assert(dst@.take(3) =~= self.spec_payload());
        Ok(3)
    }

    fn unmarshal(raw: &[u8]) -> (r: Result<Self, MarshalerError>)
        ensures
            r is Ok,
            r->Ok_0.remaining_time() == raw@[0],
            r->Ok_0.dart_info() == raw@[1] + 256 * raw@[2],
    {
        let remaining_time = raw[0];
        let dart_info = read_le(raw, 1, 2);
        proof {
            lemma_pow256_values();
            lemma_le_value_bound(raw@.subrange(1, 3));
            lemma_le_bytes_of_value(raw@.subrange(1, 3));
        }
        let m = DartInfo { remaining_time, dart_info: dart_info as u16 };
        assert(m.spec_payload() =~= raw@.take(3));
        proof {
            Self::lemma_unmarshal_layout(raw@, Ok(m));
        }
        Ok(m)
    }
}

} // verus!
