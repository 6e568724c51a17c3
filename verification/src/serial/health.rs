//! `0x0003` — health of the own robots, sent at 3 Hz.

use vstd::prelude::*;
use crate::error::MarshalerError;
use crate::le::{le_bytes, lemma_le_bytes_len, lemma_le_field, lemma_le_bytes_of_value, lemma_le_value_bound, lemma_le_value_of_bytes, lemma_pow256_values, read_le, splice, write_le};
use crate::marshaler::{lemma_command_msg_of, ImplCommandMsg, Marshaler};

verus! {

/// Health of the own robots, outpost and base.
#[derive(Debug, Clone, Copy)]
pub struct GameRobotHP {
    ally_1: u16,
    ally_2: u16,
    ally_3: u16,
    ally_4: u16,
    _reserved: u16,
    ally_7: u16,
    ally_outpost: u16,
    ally_base: u16,
}

impl GameRobotHP {
    pub closed spec fn spec_ally1_hp(&self) -> u16 {
        self.ally_1
    }

    pub closed spec fn spec_ally2_hp(&self) -> u16 {
        self.ally_2
    }

    pub closed spec fn spec_ally3_hp(&self) -> u16 {
        self.ally_3
    }

    pub closed spec fn spec_ally4_hp(&self) -> u16 {
        self.ally_4
    }

    pub closed spec fn spec_reserved(&self) -> u16 {
        self._reserved
    }

    pub closed spec fn spec_ally7_hp(&self) -> u16 {
        self.ally_7
    }

    pub closed spec fn spec_outpost_hp(&self) -> u16 {
        self.ally_outpost
    }

    pub closed spec fn spec_base_hp(&self) -> u16 {
        self.ally_base
    }

    /// The payload bytes of this message.
    pub open spec fn spec_payload(&self) -> Seq<u8> {
        le_bytes(self.ally1_hp() as nat, 2)
            + le_bytes(self.ally2_hp() as nat, 2)
            + le_bytes(self.ally3_hp() as nat, 2)
            + le_bytes(self.ally4_hp() as nat, 2)
            + le_bytes(self.spec_reserved() as nat, 2)
            + le_bytes(self.ally7_hp() as nat, 2)
            + le_bytes(self.outpost_hp() as nat, 2)
            + le_bytes(self.base_hp() as nat, 2)
    }

    pub fn new(
        ally_1: u16,
        ally_2: u16,
        ally_3: u16,
        ally_4: u16,
        ally_7: u16,
        ally_outpost: u16,
        ally_base: u16,
    ) -> (r: GameRobotHP)
        ensures
            r.ally1_hp() == ally_1,
            r.ally2_hp() == ally_2,
            r.ally3_hp() == ally_3,
            r.ally4_hp() == ally_4,
            r.spec_reserved() == 0,
            r.ally7_hp() == ally_7,
            r.outpost_hp() == ally_outpost,
            r.base_hp() == ally_base,
    {
        GameRobotHP {
            ally_1,
            ally_2,
            ally_3,
            ally_4,
            _reserved: 0,
            ally_7,
            ally_outpost,
            ally_base,
        }
    }

    /// Health of the own hero robot (no. 1); 0 when it is absent or sent off.
    #[verifier::when_used_as_spec(spec_ally1_hp)]
    pub fn ally1_hp(&self) -> (r: u16)
        ensures
            r == self.spec_ally1_hp(),
    {
        self.ally_1
    }

    /// Health of the own engineer robot (no. 2); 0 when it is absent or sent off.
    #[verifier::when_used_as_spec(spec_ally2_hp)]
    pub fn ally2_hp(&self) -> (r: u16)
        ensures
            r == self.spec_ally2_hp(),
    {
        self.ally_2
    }

    /// Health of the own infantry robot no. 3; 0 when it is absent or sent off.
    #[verifier::when_used_as_spec(spec_ally3_hp)]
    pub fn ally3_hp(&self) -> (r: u16)
        ensures
            r == self.spec_ally3_hp(),
    {
        self.ally_3
    }

    /// Health of the own infantry robot no. 4; 0 when it is absent or sent off.
    #[verifier::when_used_as_spec(spec_ally4_hp)]
    pub fn ally4_hp(&self) -> (r: u16)
        ensures
            r == self.spec_ally4_hp(),
    {
        self.ally_4
    }

    /// Health of the own sentry robot (no. 7); 0 when it is absent or sent off.
    #[verifier::when_used_as_spec(spec_ally7_hp)]
    pub fn ally7_hp(&self) -> (r: u16)
        ensures
            r == self.spec_ally7_hp(),
    {
        self.ally_7
    }

    /// Health of the own outpost; 0 when it is absent.
    #[verifier::when_used_as_spec(spec_outpost_hp)]
    pub fn outpost_hp(&self) -> (r: u16)
        ensures
            r == self.spec_outpost_hp(),
    {
        self.ally_outpost
    }

    /// Health of the own base; 0 when it is absent.
    #[verifier::when_used_as_spec(spec_base_hp)]
    pub fn base_hp(&self) -> (r: u16)
        ensures
            r == self.spec_base_hp(),
    {
        self.ally_base
    }

    /// Two messages with the same payload bytes are the same message, so
    /// unmarshaling what marshaling writes gives the message back.
    pub proof fn lemma_payload_injective(a: GameRobotHP, b: GameRobotHP)
        requires
            a.spec_payload() == b.spec_payload(),
        ensures
            a == b,
    {
        lemma_pow256_values();
        lemma_le_bytes_len(a.ally_1 as nat, 2);
        lemma_le_bytes_len(b.ally_1 as nat, 2);
        lemma_le_bytes_len(a.ally_2 as nat, 2);
        lemma_le_bytes_len(b.ally_2 as nat, 2);
        lemma_le_bytes_len(a.ally_3 as nat, 2);
        lemma_le_bytes_len(b.ally_3 as nat, 2);
        lemma_le_bytes_len(a.ally_4 as nat, 2);
        lemma_le_bytes_len(b.ally_4 as nat, 2);
        lemma_le_bytes_len(a._reserved as nat, 2);
        lemma_le_bytes_len(b._reserved as nat, 2);
        lemma_le_bytes_len(a.ally_7 as nat, 2);
        lemma_le_bytes_len(b.ally_7 as nat, 2);
        lemma_le_bytes_len(a.ally_outpost as nat, 2);
        lemma_le_bytes_len(b.ally_outpost as nat, 2);
        lemma_le_bytes_len(a.ally_base as nat, 2);
        lemma_le_bytes_len(b.ally_base as nat, 2);
        assert(a.spec_payload().subrange(0, 2) == le_bytes(a.ally_1 as nat, 2));
        lemma_le_value_of_bytes(a.ally_1 as nat, 2);
        assert(b.spec_payload().subrange(0, 2) == le_bytes(b.ally_1 as nat, 2));
        lemma_le_value_of_bytes(b.ally_1 as nat, 2);
        assert(a.spec_payload().subrange(2, 4) == le_bytes(a.ally_2 as nat, 2));
        lemma_le_value_of_bytes(a.ally_2 as nat, 2);
        assert(b.spec_payload().subrange(2, 4) == le_bytes(b.ally_2 as nat, 2));
        lemma_le_value_of_bytes(b.ally_2 as nat, 2);
        assert(a.spec_payload().subrange(4, 6) == le_bytes(a.ally_3 as nat, 2));
        lemma_le_value_of_bytes(a.ally_3 as nat, 2);
        assert(b.spec_payload().subrange(4, 6) == le_bytes(b.ally_3 as nat, 2));
        lemma_le_value_of_bytes(b.ally_3 as nat, 2);
        assert(a.spec_payload().subrange(6, 8) == le_bytes(a.ally_4 as nat, 2));
        lemma_le_value_of_bytes(a.ally_4 as nat, 2);
        assert(b.spec_payload().subrange(6, 8) == le_bytes(b.ally_4 as nat, 2));
        lemma_le_value_of_bytes(b.ally_4 as nat, 2);
        assert(a.spec_payload().subrange(8, 10) == le_bytes(a._reserved as nat, 2));
        lemma_le_value_of_bytes(a._reserved as nat, 2);
        assert(b.spec_payload().subrange(8, 10) == le_bytes(b._reserved as nat, 2));
        lemma_le_value_of_bytes(b._reserved as nat, 2);
        assert(a.spec_payload().subrange(10, 12) == le_bytes(a.ally_7 as nat, 2));
        lemma_le_value_of_bytes(a.ally_7 as nat, 2);
        assert(b.spec_payload().subrange(10, 12) == le_bytes(b.ally_7 as nat, 2));
        lemma_le_value_of_bytes(b.ally_7 as nat, 2);
        assert(a.spec_payload().subrange(12, 14) == le_bytes(a.ally_outpost as nat, 2));
        lemma_le_value_of_bytes(a.ally_outpost as nat, 2);
        assert(b.spec_payload().subrange(12, 14) == le_bytes(b.ally_outpost as nat, 2));
        lemma_le_value_of_bytes(b.ally_outpost as nat, 2);
        assert(a.spec_payload().subrange(14, 16) == le_bytes(a.ally_base as nat, 2));
        lemma_le_value_of_bytes(a.ally_base as nat, 2);
        assert(b.spec_payload().subrange(14, 16) == le_bytes(b.ally_base as nat, 2));
        lemma_le_value_of_bytes(b.ally_base as nat, 2);
    }

    /// Wire layout: the payload is sixteen bytes, the eight fields as two-byte
    /// little-endian integers in the order hero, engineer, infantry no. 3,
    /// infantry no. 4, reserved, sentry, outpost, base.
    pub proof fn lemma_payload_layout(m: GameRobotHP)
        ensures
            m.spec_payload().len() == 16,
            m.ally1_hp() == m.spec_payload()[0] + 256 * m.spec_payload()[1],
            m.ally2_hp() == m.spec_payload()[2] + 256 * m.spec_payload()[3],
            m.ally3_hp() == m.spec_payload()[4] + 256 * m.spec_payload()[5],
            m.ally4_hp() == m.spec_payload()[6] + 256 * m.spec_payload()[7],
            m.spec_reserved() == m.spec_payload()[8] + 256 * m.spec_payload()[9],
            m.ally7_hp() == m.spec_payload()[10] + 256 * m.spec_payload()[11],
            m.outpost_hp() == m.spec_payload()[12] + 256 * m.spec_payload()[13],
            m.base_hp() == m.spec_payload()[14] + 256 * m.spec_payload()[15],
    {
        lemma_pow256_values();
        let p = m.spec_payload();
        lemma_le_bytes_len(m.ally_1 as nat, 2);
        lemma_le_bytes_len(m.ally_2 as nat, 2);
        lemma_le_bytes_len(m.ally_3 as nat, 2);
        lemma_le_bytes_len(m.ally_4 as nat, 2);
        lemma_le_bytes_len(m._reserved as nat, 2);
        lemma_le_bytes_len(m.ally_7 as nat, 2);
        lemma_le_bytes_len(m.ally_outpost as nat, 2);
        lemma_le_bytes_len(m.ally_base as nat, 2);
        assert(p.subrange(0, 2) == le_bytes(m.ally_1 as nat, 2));
        lemma_le_field(p, 0, m.ally_1 as nat, 2);
        assert(p.subrange(2, 4) == le_bytes(m.ally_2 as nat, 2));
        lemma_le_field(p, 2, m.ally_2 as nat, 2);
        assert(p.subrange(4, 6) == le_bytes(m.ally_3 as nat, 2));
        lemma_le_field(p, 4, m.ally_3 as nat, 2);
        assert(p.subrange(6, 8) == le_bytes(m.ally_4 as nat, 2));
        lemma_le_field(p, 6, m.ally_4 as nat, 2);
        assert(p.subrange(8, 10) == le_bytes(m._reserved as nat, 2));
        lemma_le_field(p, 8, m._reserved as nat, 2);
        assert(p.subrange(10, 12) == le_bytes(m.ally_7 as nat, 2));
        lemma_le_field(p, 10, m.ally_7 as nat, 2);
        assert(p.subrange(12, 14) == le_bytes(m.ally_outpost as nat, 2));
        lemma_le_field(p, 12, m.ally_outpost as nat, 2);
        assert(p.subrange(14, 16) == le_bytes(m.ally_base as nat, 2));
        lemma_le_field(p, 14, m.ally_base as nat, 2);
    }

    /// Marshaling writes the hero's health at bytes 0 and 1, the engineer's at
    /// bytes 2 and 3, and so on, each least significant byte first.
    pub proof fn lemma_marshal_layout(m: GameRobotHP, payload: Seq<u8>, r: Result<usize, MarshalerError>)
        requires
            <GameRobotHP as Marshaler>::marshals_to(&m, payload, r),
        ensures
            r == Ok::<usize, MarshalerError>(16),
            payload.len() == 16,
            m.ally1_hp() == payload[0] + 256 * payload[1],
            m.ally2_hp() == payload[2] + 256 * payload[3],
            m.ally3_hp() == payload[4] + 256 * payload[5],
            m.ally4_hp() == payload[6] + 256 * payload[7],
            m.spec_reserved() == payload[8] + 256 * payload[9],
            m.ally7_hp() == payload[10] + 256 * payload[11],
            m.outpost_hp() == payload[12] + 256 * payload[13],
            m.base_hp() == payload[14] + 256 * payload[15],
    {
        Self::lemma_payload_layout(m);
    }

    /// Unmarshaling sixteen payload bytes always succeeds and reads the hero's
    /// health from bytes 0 and 1, the engineer's from bytes 2 and 3, and so on,
    /// each least significant byte first.
    pub proof fn lemma_unmarshal_layout(raw: Seq<u8>, r: Result<GameRobotHP, MarshalerError>)
        requires
            raw.len() >= 16,
            <GameRobotHP as Marshaler>::unmarshals_to(raw, r),
        ensures
            r is Ok,
            r->Ok_0.ally1_hp() == raw[0] + 256 * raw[1],
            r->Ok_0.ally2_hp() == raw[2] + 256 * raw[3],
            r->Ok_0.ally3_hp() == raw[4] + 256 * raw[5],
            r->Ok_0.ally4_hp() == raw[6] + 256 * raw[7],
            r->Ok_0.spec_reserved() == raw[8] + 256 * raw[9],
            r->Ok_0.ally7_hp() == raw[10] + 256 * raw[11],
            r->Ok_0.outpost_hp() == raw[12] + 256 * raw[13],
            r->Ok_0.base_hp() == raw[14] + 256 * raw[15],
    {
        let m = r->Ok_0;
        Self::lemma_payload_layout(m);
        assert(m.spec_payload() == raw.take(16));
    }

    /// The command ID and payload size of this message.
    pub proof fn lemma_command_msg()
        ensures
            <GameRobotHP as Marshaler>::CMD_ID == 0x0003,
            <GameRobotHP as Marshaler>::PAYLOAD_SIZE == 16,
            <GameRobotHP as ImplCommandMsg>::CMD_ID == 0x0003,
            <GameRobotHP as ImplCommandMsg>::PAYLOAD_SIZE == 16,
    {
        lemma_command_msg_of::<GameRobotHP>();
    }

    /// Unmarshaling what marshaling writes gives the message back.
    pub proof fn lemma_roundtrip(m: GameRobotHP, payload: Seq<u8>, r: Result<GameRobotHP, MarshalerError>)
        requires
            <GameRobotHP as Marshaler>::marshals_to(&m, payload, Ok(16)),
            <GameRobotHP as Marshaler>::unmarshals_to(payload, r),
        ensures
            r == Ok::<GameRobotHP, MarshalerError>(m),
    {
        lemma_le_bytes_len(m.ally_1 as nat, 2);
        lemma_le_bytes_len(m.ally_2 as nat, 2);
        lemma_le_bytes_len(m.ally_3 as nat, 2);
        lemma_le_bytes_len(m.ally_4 as nat, 2);
        lemma_le_bytes_len(m._reserved as nat, 2);
        lemma_le_bytes_len(m.ally_7 as nat, 2);
        lemma_le_bytes_len(m.ally_outpost as nat, 2);
        lemma_le_bytes_len(m.ally_base as nat, 2);
        let m2 = r->Ok_0;
        assert(payload.take(16) =~= payload);
        Self::lemma_payload_injective(m, m2);
    }
}

impl Marshaler for GameRobotHP {
    const CMD_ID: u16 = 0x0003;
    const PAYLOAD_SIZE: u16 = 16;

    open spec fn marshals_to(&self, payload: Seq<u8>, r: Result<usize, MarshalerError>) -> bool {
        r == Ok::<usize, MarshalerError>(16) && payload == self.spec_payload()
    }

    open spec fn unmarshals_to(raw: Seq<u8>, r: Result<Self, MarshalerError>) -> bool {
        r matches Ok(m) && m.spec_payload() == raw.take(16)
    }

    fn marshal(&self, dst: &mut [u8]) -> (r: Result<usize, MarshalerError>)
        ensures
            r == Ok::<usize, MarshalerError>(16),
            final(dst)@ == splice(old(dst)@, 0, self.spec_payload()),
    {
        proof {
            lemma_le_bytes_len(self.ally_1 as nat, 2);
            lemma_le_bytes_len(self.ally_2 as nat, 2);
            lemma_le_bytes_len(self.ally_3 as nat, 2);
            lemma_le_bytes_len(self.ally_4 as nat, 2);
            lemma_le_bytes_len(self._reserved as nat, 2);
            lemma_le_bytes_len(self.ally_7 as nat, 2);
            lemma_le_bytes_len(self.ally_outpost as nat, 2);
            lemma_le_bytes_len(self.ally_base as nat, 2);
        }
        let ghost d0 = dst@;
        write_le(dst, 0, self.ally_1 as u64, 2);
        write_le(dst, 2, self.ally_2 as u64, 2);
        write_le(dst, 4, self.ally_3 as u64, 2);
        write_le(dst, 6, self.ally_4 as u64, 2);
        write_le(dst, 8, self._reserved as u64, 2);
        write_le(dst, 10, self.ally_7 as u64, 2);
        write_le(dst, 12, self.ally_outpost as u64, 2);
        write_le(dst, 14, self.ally_base as u64, 2);
        assert(dst@ =~= splice(d0, 0, self.spec_payload()));
        assert(dst@.take(16) =~= self.spec_payload());
        Ok(16)
    }

    fn unmarshal(raw: &[u8]) -> (r: Result<Self, MarshalerError>)
        ensures
            r is Ok,
            r->Ok_0.ally1_hp() == raw@[0] + 256 * raw@[1],
            r->Ok_0.ally2_hp() == raw@[2] + 256 * raw@[3],
            r->Ok_0.ally3_hp() == raw@[4] + 256 * raw@[5],
            r->Ok_0.ally4_hp() == raw@[6] + 256 * raw@[7],
            r->Ok_0.spec_reserved() == raw@[8] + 256 * raw@[9],
            r->Ok_0.ally7_hp() == raw@[10] + 256 * raw@[11],
            r->Ok_0.outpost_hp() == raw@[12] + 256 * raw@[13],
            r->Ok_0.base_hp() == raw@[14] + 256 * raw@[15],
    {
        let ally_1 = read_le(raw, 0, 2);
        let ally_2 = read_le(raw, 2, 2);
        let ally_3 = read_le(raw, 4, 2);
        let ally_4 = read_le(raw, 6, 2);
        let _reserved = read_le(raw, 8, 2);
        let ally_7 = read_le(raw, 10, 2);
        let ally_outpost = read_le(raw, 12, 2);
        let ally_base = read_le(raw, 14, 2);
        proof {
            lemma_pow256_values();
            lemma_le_value_bound(raw@.subrange(0, 2));
            lemma_le_bytes_of_value(raw@.subrange(0, 2));
            lemma_le_value_bound(raw@.subrange(2, 4));
            lemma_le_bytes_of_value(raw@.subrange(2, 4));
            lemma_le_value_bound(raw@.subrange(4, 6));
            lemma_le_bytes_of_value(raw@.subrange(4, 6));
            lemma_le_value_bound(raw@.subrange(6, 8));
            lemma_le_bytes_of_value(raw@.subrange(6, 8));
            lemma_le_value_bound(raw@.subrange(8, 10));
            lemma_le_bytes_of_value(raw@.subrange(8, 10));
            lemma_le_value_bound(raw@.subrange(10, 12));
            lemma_le_bytes_of_value(raw@.subrange(10, 12));
            lemma_le_value_bound(raw@.subrange(12, 14));
            lemma_le_bytes_of_value(raw@.subrange(12, 14));
            lemma_le_value_bound(raw@.subrange(14, 16));
            lemma_le_bytes_of_value(raw@.subrange(14, 16));
        }
        let m = GameRobotHP {
            ally_1: ally_1 as u16,
            ally_2: ally_2 as u16,
            ally_3: ally_3 as u16,
            ally_4: ally_4 as u16,
            _reserved: _reserved as u16,
            ally_7: ally_7 as u16,
            ally_outpost: ally_outpost as u16,
            ally_base: ally_base as u16,
        };
        assert(m.spec_payload() =~= raw@.take(16));
        proof {
            Self::lemma_unmarshal_layout(raw@, Ok(m));
        }
        Ok(m)
    }
}

} // verus!
