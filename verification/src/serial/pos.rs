//! `0x0203` — robot position, sent at 1 Hz.
//!
//! The three fields are `f32` on the wire; this type holds their IEEE-754 bit
//! patterns (`f32::to_bits`), which is all that encoding and decoding touch.

use vstd::prelude::*;
use crate::error::MarshalerError;
use crate::le::{le_bytes, lemma_le_bytes_len, lemma_le_field, lemma_le_bytes_of_value, lemma_le_value_bound, lemma_le_value_of_bytes, lemma_pow256_values, read_le, splice, write_le};
use crate::marshaler::{lemma_command_msg_of, ImplCommandMsg, Marshaler};

verus! {

/// Robot position (metres) and heading (degrees, north is 0), as `f32` bit patterns.
#[derive(Debug, Clone, Copy)]
pub struct RobotPos {
    x: u32,
    y: u32,
    angle: u32,
}

impl RobotPos {
    pub closed spec fn spec_x_bits(&self) -> u32 {
        self.x
    }

    pub closed spec fn spec_y_bits(&self) -> u32 {
        self.y
    }

    pub closed spec fn spec_angle_bits(&self) -> u32 {
        self.angle
    }

    /// The payload bytes of this message.
    pub open spec fn spec_payload(&self) -> Seq<u8> {
        le_bytes(self.x_bits() as nat, 4) + le_bytes(self.y_bits() as nat, 4) + le_bytes(
            self.angle_bits() as nat,
            4,
        )
    }

    /// Creates a position from the bit patterns of its `f32` fields.
    pub fn from_bits(x: u32, y: u32, angle: u32) -> (r: RobotPos)
        ensures
            r.x_bits() == x,
            r.y_bits() == y,
            r.angle_bits() == angle,
    {
        RobotPos { x, y, angle }
    }

    /// Bit pattern of the x coordinate.
    #[verifier::when_used_as_spec(spec_x_bits)]
    pub fn x_bits(&self) -> (r: u32)
        ensures
            r == self.spec_x_bits(),
    {
        self.x
    }

    /// Bit pattern of the y coordinate.
    #[verifier::when_used_as_spec(spec_y_bits)]
    pub fn y_bits(&self) -> (r: u32)
        ensures
            r == self.spec_y_bits(),
    {
        self.y
    }

    /// Bit pattern of the heading.
    #[verifier::when_used_as_spec(spec_angle_bits)]
    pub fn angle_bits(&self) -> (r: u32)
        ensures
            r == self.spec_angle_bits(),
    {
        self.angle
    }

    /// Two messages with the same payload bytes are the same message, so
    /// unmarshaling what marshaling writes gives the message back.
    pub proof fn lemma_payload_injective(a: RobotPos, b: RobotPos)
        requires
            a.spec_payload() == b.spec_payload(),
        ensures
            a == b,
    {
        lemma_pow256_values();
        lemma_le_bytes_len(a.x as nat, 4);
        lemma_le_bytes_len(b.x as nat, 4);
        lemma_le_bytes_len(a.y as nat, 4);
        lemma_le_bytes_len(b.y as nat, 4);
        lemma_le_bytes_len(a.angle as nat, 4);
        lemma_le_bytes_len(b.angle as nat, 4);
        let p = a.spec_payload();
        let q = b.spec_payload();
        assert(p.subrange(0, 4) == le_bytes(a.x as nat, 4));
        assert(q.subrange(0, 4) == le_bytes(b.x as nat, 4));
        assert(p.subrange(4, 8) == le_bytes(a.y as nat, 4));
        assert(q.subrange(4, 8) == le_bytes(b.y as nat, 4));
        assert(p.subrange(8, 12) == le_bytes(a.angle as nat, 4));
        assert(q.subrange(8, 12) == le_bytes(b.angle as nat, 4));
        lemma_le_value_of_bytes(a.x as nat, 4);
        lemma_le_value_of_bytes(b.x as nat, 4);
        lemma_le_value_of_bytes(a.y as nat, 4);
        lemma_le_value_of_bytes(b.y as nat, 4);
        lemma_le_value_of_bytes(a.angle as nat, 4);
        lemma_le_value_of_bytes(b.angle as nat, 4);
    }

    /// Wire layout: the payload is twelve bytes, the bit patterns of x, y and
    /// the heading as four-byte little-endian integers, in that order.
    pub proof fn lemma_payload_layout(m: RobotPos)
        ensures
            m.spec_payload().len() == 12,
            m.x_bits() == m.spec_payload()[0] + 0x100 * m.spec_payload()[1] + 0x1_0000 * m.spec_payload()[2] + 0x100_0000 * m.spec_payload()[3],
            m.y_bits() == m.spec_payload()[4] + 0x100 * m.spec_payload()[5] + 0x1_0000 * m.spec_payload()[6] + 0x100_0000 * m.spec_payload()[7],
            m.angle_bits() == m.spec_payload()[8] + 0x100 * m.spec_payload()[9] + 0x1_0000 * m.spec_payload()[10] + 0x100_0000 * m.spec_payload()[11],
    {
        lemma_pow256_values();
        let p = m.spec_payload();
        lemma_le_bytes_len(m.x as nat, 4);
        lemma_le_bytes_len(m.y as nat, 4);
        lemma_le_bytes_len(m.angle as nat, 4);
        assert(p.subrange(0, 4) == le_bytes(m.x as nat, 4));
        lemma_le_field(p, 0, m.x as nat, 4);
        assert(p.subrange(4, 8) == le_bytes(m.y as nat, 4));
        lemma_le_field(p, 4, m.y as nat, 4);
        assert(p.subrange(8, 12) == le_bytes(m.angle as nat, 4));
        lemma_le_field(p, 8, m.angle as nat, 4);
    }

    /// Marshaling writes x at bytes 0 to 3, y at bytes 4 to 7 and the heading
    /// at bytes 8 to 11, least significant byte first.
    pub proof fn lemma_marshal_layout(m: RobotPos, payload: Seq<u8>, r: Result<usize, MarshalerError>)
        requires
            <RobotPos as Marshaler>::marshals_to(&m, payload, r),
        ensures
            r == Ok::<usize, MarshalerError>(12),
            payload.len() == 12,
            m.x_bits() == payload[0] + 0x100 * payload[1] + 0x1_0000 * payload[2] + 0x100_0000 * payload[3],
            m.y_bits() == payload[4] + 0x100 * payload[5] + 0x1_0000 * payload[6] + 0x100_0000 * payload[7],
            m.angle_bits() == payload[8] + 0x100 * payload[9] + 0x1_0000 * payload[10] + 0x100_0000 * payload[11],
    {
        Self::lemma_payload_layout(m);
    }

    /// Unmarshaling twelve payload bytes always succeeds and reads x from
    /// bytes 0 to 3, y from bytes 4 to 7 and the heading from bytes 8 to 11,
    /// least significant byte first.
    pub proof fn lemma_unmarshal_layout(raw: Seq<u8>, r: Result<RobotPos, MarshalerError>)
        requires
            raw.len() >= 12,
            <RobotPos as Marshaler>::unmarshals_to(raw, r),
        ensures
            r is Ok,
            r->Ok_0.x_bits() == raw[0] + 0x100 * raw[1] + 0x1_0000 * raw[2] + 0x100_0000 * raw[3],
            r->Ok_0.y_bits() == raw[4] + 0x100 * raw[5] + 0x1_0000 * raw[6] + 0x100_0000 * raw[7],
            r->Ok_0.angle_bits() == raw[8] + 0x100 * raw[9] + 0x1_0000 * raw[10] + 0x100_0000 * raw[11],
    {
        let m = r->Ok_0;
        Self::lemma_payload_layout(m);
        assert(m.spec_payload() == raw.take(12));
    }

    /// The command ID and payload size of this message.
    pub proof fn lemma_command_msg()
        ensures
            <RobotPos as Marshaler>::CMD_ID == 0x0203,
            <RobotPos as Marshaler>::PAYLOAD_SIZE == 12,
            <RobotPos as ImplCommandMsg>::CMD_ID == 0x0203,
            <RobotPos as ImplCommandMsg>::PAYLOAD_SIZE == 12,
    {
        lemma_command_msg_of::<RobotPos>();
    }

    /// Unmarshaling what marshaling writes gives the message back.
    pub proof fn lemma_roundtrip(m: RobotPos, payload: Seq<u8>, r: Result<RobotPos, MarshalerError>)
        requires
            <RobotPos as Marshaler>::marshals_to(&m, payload, Ok(12)),
            <RobotPos as Marshaler>::unmarshals_to(payload, r),
        ensures
            r == Ok::<RobotPos, MarshalerError>(m),
    {
        lemma_le_bytes_len(m.x as nat, 4);
        lemma_le_bytes_len(m.y as nat, 4);
        lemma_le_bytes_len(m.angle as nat, 4);
        let m2 = r->Ok_0;
        assert(payload.take(12) =~= payload);
        Self::lemma_payload_injective(m, m2);
    }
}

impl Marshaler for RobotPos {
    const CMD_ID: u16 = 0x0203;
    const PAYLOAD_SIZE: u16 = 12;

    open spec fn marshals_to(&self, payload: Seq<u8>, r: Result<usize, MarshalerError>) -> bool {
        r == Ok::<usize, MarshalerError>(12) && payload == self.spec_payload()
    }

    open spec fn unmarshals_to(raw: Seq<u8>, r: Result<Self, MarshalerError>) -> bool {
        r matches Ok(m) && m.spec_payload() == raw.take(12)
    }

    fn marshal(&self, dst: &mut [u8]) -> (r: Result<usize, MarshalerError>)
        ensures
            r == Ok::<usize, MarshalerError>(12),
            final(dst)@ == splice(old(dst)@, 0, self.spec_payload()),
    {
        proof {
            lemma_le_bytes_len(self.x as nat, 4);
            lemma_le_bytes_len(self.y as nat, 4);
            lemma_le_bytes_len(self.angle as nat, 4);
        }
        let ghost d0 = dst@;
        write_le(dst, 0, self.x as u64, 4);
        write_le(dst, 4, self.y as u64, 4);
        write_le(dst, 8, self.angle as u64, 4);
        assert(dst@ =~= splice(d0, 0, self.spec_payload()));
        assert(dst@.take(12) =~= self.spec_payload());
        Ok(12)
    }

    fn unmarshal(raw: &[u8]) -> (r: Result<Self, MarshalerError>)
        ensures
            r is Ok,
            r->Ok_0.x_bits() == raw@[0] + 0x100 * raw@[1] + 0x1_0000 * raw@[2] + 0x100_0000 * raw@[3],
            r->Ok_0.y_bits() == raw@[4] + 0x100 * raw@[5] + 0x1_0000 * raw@[6] + 0x100_0000 * raw@[7],
            r->Ok_0.angle_bits() == raw@[8] + 0x100 * raw@[9] + 0x1_0000 * raw@[10] + 0x100_0000 * raw@[11],
    {
        let x = read_le(raw, 0, 4);
        let y = read_le(raw, 4, 4);
        let angle = read_le(raw, 8, 4);
        proof {
            lemma_pow256_values();
            lemma_le_value_bound(raw@.subrange(0, 4));
            lemma_le_value_bound(raw@.subrange(4, 8));
            lemma_le_value_bound(raw@.subrange(8, 12));
            lemma_le_bytes_of_value(raw@.subrange(0, 4));
            lemma_le_bytes_of_value(raw@.subrange(4, 8));
            lemma_le_bytes_of_value(raw@.subrange(8, 12));
        }
        let m = RobotPos { x: x as u32, y: y as u32, angle: angle as u32 };
        assert(m.spec_payload() =~= raw@.take(12));
        proof {
            Self::lemma_unmarshal_layout(raw@, Ok(m));
        }
        Ok(m)
    }
}

} // verus!
