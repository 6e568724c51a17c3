//! `0x0204` — robot buffs and chassis energy, sent at 3 Hz.

use vstd::prelude::*;
use crate::error::MarshalerError;
use crate::le::{le_bytes, le_value, lemma_le_bytes_len, lemma_le_field, lemma_le_bytes_of_value, lemma_le_value_bound, lemma_le_value_of_bytes, lemma_pow256_values, read_le, splice, write_le};
use crate::marshaler::{lemma_command_msg_of, ImplCommandMsg, Marshaler};

verus! {

/// Robot buffs and chassis energy.
#[derive(Debug, Clone, Copy)]
pub struct RobotBuff {
    recovery_rate: u8,
    cooling_value: u16,
    defence_rate: u8,
    vulnerability_rate: u8,
    attack_rate: u16,
    remain_energy: u8,
}

impl RobotBuff {
    pub closed spec fn spec_recovery_rate(&self) -> u8 {
        self.recovery_rate
    }

    pub closed spec fn spec_cooling_value(&self) -> u16 {
        self.cooling_value
    }

    pub closed spec fn spec_defence_rate(&self) -> u8 {
        self.defence_rate
    }

    pub closed spec fn spec_vulnerability_rate(&self) -> u8 {
        self.vulnerability_rate
    }

    pub closed spec fn spec_attack_rate(&self) -> u16 {
        self.attack_rate
    }

    pub closed spec fn spec_remain_energy(&self) -> u8 {
        self.remain_energy
    }

    /// The payload bytes of this message.
    pub open spec fn spec_payload(&self) -> Seq<u8> {
        seq![self.recovery_rate()] + le_bytes(self.cooling_value() as nat, 2) + seq![
            self.defence_rate(),
            self.vulnerability_rate(),
        ] + le_bytes(self.attack_rate() as nat, 2) + seq![self.remain_energy()]
    }

    pub fn new(
        recovery_rate: u8,
        cooling_value: u16,
        defence_rate: u8,
        vulnerability_rate: u8,
        attack_rate: u16,
        remain_energy: u8,
    ) -> (r: RobotBuff)
        ensures
            r.recovery_rate() == recovery_rate,
            r.cooling_value() == cooling_value,
            r.defence_rate() == defence_rate,
            r.vulnerability_rate() == vulnerability_rate,
            r.attack_rate() == attack_rate,
            r.remain_energy() == remain_energy,
    {
        RobotBuff {
            recovery_rate,
            cooling_value,
            defence_rate,
            vulnerability_rate,
            attack_rate,
            remain_energy,
        }
    }

    /// Health recovery buff, in percent of the health limit per second.
    #[verifier::when_used_as_spec(spec_recovery_rate)]
    pub fn recovery_rate(&self) -> (r: u8)
        ensures
            r == self.spec_recovery_rate(),
    {
        self.recovery_rate
    }

    /// Barrel heat cooling buff, in heat per second.
    #[verifier::when_used_as_spec(spec_cooling_value)]
    pub fn cooling_value(&self) -> (r: u16)
        ensures
            r == self.spec_cooling_value(),
    {
        self.cooling_value
    }

    /// Defence buff, in percent.
    #[verifier::when_used_as_spec(spec_defence_rate)]
    pub fn defence_rate(&self) -> (r: u8)
        ensures
            r == self.spec_defence_rate(),
    {
        self.defence_rate
    }

    /// Negative defence buff, in percent.
    #[verifier::when_used_as_spec(spec_vulnerability_rate)]
    pub fn vulnerability_rate(&self) -> (r: u8)
        ensures
            r == self.spec_vulnerability_rate(),
    {
        self.vulnerability_rate
    }

    /// Attack buff, in percent.
    #[verifier::when_used_as_spec(spec_attack_rate)]
    pub fn attack_rate(&self) -> (r: u16)
        ensures
            r == self.spec_attack_rate(),
    {
        self.attack_rate
    }

    /// Remaining energy feedback: bits 0..=6 flag remaining energy of at least
    /// 125%, 100%, 50%, 30%, 15%, 5% and 1%; `0x80` while at least 50% remains.
    #[verifier::when_used_as_spec(spec_remain_energy)]
    pub fn remain_energy(&self) -> (r: u8)
        ensures
            r == self.spec_remain_energy(),
    {
        self.remain_energy
    }

    /// Two messages with the same payload bytes are the same message, so
    /// unmarshaling what marshaling writes gives the message back.
    pub proof fn lemma_payload_injective(a: RobotBuff, b: RobotBuff)
        requires
            a.spec_payload() == b.spec_payload(),
        ensures
            a == b,
    {
        lemma_pow256_values();
        lemma_le_bytes_len(a.cooling_value as nat, 2);
        lemma_le_bytes_len(b.cooling_value as nat, 2);
        lemma_le_bytes_len(a.attack_rate as nat, 2);
        lemma_le_bytes_len(b.attack_rate as nat, 2);
        let p = a.spec_payload();
        assert(p.subrange(1, 3) == le_bytes(a.cooling_value as nat, 2));
        assert(b.spec_payload().subrange(1, 3) == le_bytes(b.cooling_value as nat, 2));
        assert(p.subrange(5, 7) == le_bytes(a.attack_rate as nat, 2));
        assert(b.spec_payload().subrange(5, 7) == le_bytes(b.attack_rate as nat, 2));
        lemma_le_value_of_bytes(a.cooling_value as nat, 2);
        lemma_le_value_of_bytes(b.cooling_value as nat, 2);
        lemma_le_value_of_bytes(a.attack_rate as nat, 2);
        lemma_le_value_of_bytes(b.attack_rate as nat, 2);
        assert(p[0] == a.recovery_rate && b.spec_payload()[0] == b.recovery_rate);
        assert(p[3] == a.defence_rate && b.spec_payload()[3] == b.defence_rate);
        assert(p[4] == a.vulnerability_rate && b.spec_payload()[4] == b.vulnerability_rate);
        assert(p[7] == a.remain_energy && b.spec_payload()[7] == b.remain_energy);
    }

    /// Wire layout: the payload is eight bytes: recovery rate, cooling value
    /// (two bytes, least significant first), defence rate, vulnerability rate,
    /// attack rate (two bytes, least significant first), remaining energy.
    pub proof fn lemma_payload_layout(m: RobotBuff)
        ensures
            m.spec_payload().len() == 8,
            m.recovery_rate() == m.spec_payload()[0],
            m.cooling_value() == m.spec_payload()[1] + 256 * m.spec_payload()[2],
            m.defence_rate() == m.spec_payload()[3],
            m.vulnerability_rate() == m.spec_payload()[4],
            m.attack_rate() == m.spec_payload()[5] + 256 * m.spec_payload()[6],
            m.remain_energy() == m.spec_payload()[7],
    {
        lemma_pow256_values();
        let p = m.spec_payload();
        lemma_le_bytes_len(m.cooling_value as nat, 2);
        lemma_le_bytes_len(m.attack_rate as nat, 2);
        assert(p[0] == m.recovery_rate);
        assert(p.subrange(1, 3) == le_bytes(m.cooling_value as nat, 2));
        lemma_le_field(p, 1, m.cooling_value as nat, 2);
        assert(p[3] == m.defence_rate);
        assert(p[4] == m.vulnerability_rate);
        assert(p.subrange(5, 7) == le_bytes(m.attack_rate as nat, 2));
        lemma_le_field(p, 5, m.attack_rate as nat, 2);
        assert(p[7] == m.remain_energy);
    }

    /// Marshaling writes the recovery rate at byte 0, the cooling value at
    /// bytes 1 and 2, the defence and vulnerability rates at bytes 3 and 4, the
    /// attack rate at bytes 5 and 6 and the remaining energy at byte 7.
    pub proof fn lemma_marshal_layout(m: RobotBuff, payload: Seq<u8>, r: Result<usize, MarshalerError>)
        requires
            <RobotBuff as Marshaler>::marshals_to(&m, payload, r),
        ensures
            r == Ok::<usize, MarshalerError>(8),
            payload.len() == 8,
            m.recovery_rate() == payload[0],
            m.cooling_value() == payload[1] + 256 * payload[2],
            m.defence_rate() == payload[3],
            m.vulnerability_rate() == payload[4],
            m.attack_rate() == payload[5] + 256 * payload[6],
            m.remain_energy() == payload[7],
    {
        Self::lemma_payload_layout(m);
    }

    /// Unmarshaling eight payload bytes always succeeds and reads the recovery
    /// rate from byte 0, the cooling value from bytes 1 and 2, the defence and
    /// vulnerability rates from bytes 3 and 4, the attack rate from bytes 5 and
    /// 6 and the remaining energy from byte 7.
    pub proof fn lemma_unmarshal_layout(raw: Seq<u8>, r: Result<RobotBuff, MarshalerError>)
        requires
            raw.len() >= 8,
            <RobotBuff as Marshaler>::unmarshals_to(raw, r),
        ensures
            r is Ok,
            r->Ok_0.recovery_rate() == raw[0],
            r->Ok_0.cooling_value() == raw[1] + 256 * raw[2],
            r->Ok_0.defence_rate() == raw[3],
            r->Ok_0.vulnerability_rate() == raw[4],
            r->Ok_0.attack_rate() == raw[5] + 256 * raw[6],
            r->Ok_0.remain_energy() == raw[7],
    {
        let m = r->Ok_0;
        Self::lemma_payload_layout(m);
        assert(m.spec_payload() == raw.take(8));
    }

    /// The command ID and payload size of this message.
    pub proof fn lemma_command_msg()
        ensures
            <RobotBuff as Marshaler>::CMD_ID == 0x0204,
            <RobotBuff as Marshaler>::PAYLOAD_SIZE == 8,
            <RobotBuff as ImplCommandMsg>::CMD_ID == 0x0204,
            <RobotBuff as ImplCommandMsg>::PAYLOAD_SIZE == 8,
    {
        lemma_command_msg_of::<RobotBuff>();
    }

    /// Unmarshaling what marshaling writes gives the message back.
    pub proof fn lemma_roundtrip(m: RobotBuff, payload: Seq<u8>, r: Result<RobotBuff, MarshalerError>)
        requires
            <RobotBuff as Marshaler>::marshals_to(&m, payload, Ok(8)),
            <RobotBuff as Marshaler>::unmarshals_to(payload, r),
        ensures
            r == Ok::<RobotBuff, MarshalerError>(m),
    {
        lemma_le_bytes_len(m.cooling_value as nat, 2);
        lemma_le_bytes_len(m.attack_rate as nat, 2);
        let m2 = r->Ok_0;
        assert(payload.take(8) =~= payload);
        Self::lemma_payload_injective(m, m2);
    }
}

impl Marshaler for RobotBuff {
    const CMD_ID: u16 = 0x0204;
    const PAYLOAD_SIZE: u16 = 8;

    open spec fn marshals_to(&self, payload: Seq<u8>, r: Result<usize, MarshalerError>) -> bool {
        r == Ok::<usize, MarshalerError>(8) && payload == self.spec_payload()
    }

    open spec fn unmarshals_to(raw: Seq<u8>, r: Result<Self, MarshalerError>) -> bool {
        r matches Ok(m) && m.spec_payload() == raw.take(8)
    }


    fn marshal(&self, dst: &mut [u8]) -> (r: Result<usize, MarshalerError>)
        ensures
            r == Ok::<usize, MarshalerError>(8),
            final(dst)@ == splice(old(dst)@, 0, self.spec_payload()),
    {
        proof {
            lemma_le_bytes_len(self.cooling_value as nat, 2);
            lemma_le_bytes_len(self.attack_rate as nat, 2);
        }
        let ghost d0 = dst@;
        dst[0] = self.recovery_rate;
        write_le(dst, 1, self.cooling_value as u64, 2);
        dst[3] = self.defence_rate;
        dst[4] = self.vulnerability_rate;
        write_le(dst, 5, self.attack_rate as u64, 2);
        dst[7] = self.remain_energy;
        assert(dst@ =~= splice(d0, 0, self.spec_payload()));
        assert(dst@.take(8) =~= self.spec_payload());
        Ok(8)
    }

    fn unmarshal(raw: &[u8]) -> (r: Result<Self, MarshalerError>)
        ensures
            r is Ok,
            r->Ok_0.recovery_rate() == raw@[0],
            r->Ok_0.cooling_value() == raw@[1] + 256 * raw@[2],
            r->Ok_0.defence_rate() == raw@[3],
            r->Ok_0.vulnerability_rate() == raw@[4],
            r->Ok_0.attack_rate() == raw@[5] + 256 * raw@[6],
            r->Ok_0.remain_energy() == raw@[7],
    {
        let recovery_rate = raw[0];
        let cooling_value = read_le(raw, 1, 2);
        let defence_rate = raw[3];
        let vulnerability_rate = raw[4];
        let attack_rate = read_le(raw, 5, 2);
        let remain_energy = raw[7];
        proof {
            lemma_pow256_values();
            lemma_le_value_bound(raw@.subrange(1, 3));
            lemma_le_value_bound(raw@.subrange(5, 7));
            lemma_le_bytes_of_value(raw@.subrange(1, 3));
            lemma_le_bytes_of_value(raw@.subrange(5, 7));
        }
        let m = RobotBuff {
            recovery_rate,
            cooling_value: cooling_value as u16,
            defence_rate,
            vulnerability_rate,
            attack_rate: attack_rate as u16,
            remain_energy,
        };
        assert(m.spec_payload() =~= raw@.take(8));
        proof {
            Self::lemma_unmarshal_layout(raw@, Ok(m));
        }
        Ok(m)
    }
}

} // verus!
