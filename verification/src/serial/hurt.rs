//! `0x0206` — damage report, sent when the robot takes damage.

use vstd::prelude::*;
use crate::error::MarshalerError;
use crate::le::splice;
use crate::marshaler::{lemma_command_msg_of, ImplCommandMsg, Marshaler};
use crate::serial::{lemma_join_nibbles, lemma_nibbles};

verus! {

/// Cause of a health deduction.
#[derive(Debug, Clone, Copy, PartialEq, Eq, Structural)]
pub enum Reason {
    /// An armor module was hit by a projectile (code 0).
    HitByProjectile,
    /// An armor module or the capacitor manager went offline (code 1).
    ModuleOffline,
    /// An armor module was struck (code 5).
    StruckByImpact,
}

/// The wire code of a deduction reason.
pub open spec fn reason_code(r: Reason) -> u8 {
    match r {
        Reason::HitByProjectile => 0,
        Reason::ModuleOffline => 1,
        Reason::StruckByImpact => 5,
    }
}

fn encode_reason(r: Reason) -> (c: u8)
    ensures
        c == reason_code(r),
{
    match r {
        Reason::HitByProjectile => 0,
        Reason::ModuleOffline => 1,
        Reason::StruckByImpact => 5,
    }
}

/// Damage report: the armor module hit (low nibble) and the reason (high nibble).
#[derive(Debug, Clone, Copy)]
pub struct HurtData {
    armor_id: u8,
    deduction_reason: Reason,
}

impl HurtData {
    pub closed spec fn spec_armor_id(&self) -> u8 {
        self.armor_id
    }

    pub closed spec fn spec_deduction_reason(&self) -> Reason {
        self.deduction_reason
    }

    /// The payload bytes of this message; the armor ID keeps its low nibble only.
    pub open spec fn spec_payload(&self) -> Seq<u8> {
        seq![((self.armor_id() % 16) + 16 * reason_code(self.deduction_reason())) as u8]
    }

    /// The payload bytes `raw` hold a valid reason code in the high nibble.
    pub open spec fn spec_accepts(raw: Seq<u8>) -> bool {
        let code = raw[0] / 16;
        code == 0 || code == 1 || code == 5
    }

    pub fn new(armor_id: u8, deduction_reason: Reason) -> (r: HurtData)
        ensures
            r.armor_id() == armor_id,
            r.deduction_reason() == deduction_reason,
    {
        HurtData { armor_id, deduction_reason }
    }

    /// ID of the armor or speed-measuring module hit; 0 for other causes.
    #[verifier::when_used_as_spec(spec_armor_id)]
    pub fn armor_id(&self) -> (r: u8)
        ensures
            r == self.spec_armor_id(),
    {
        self.armor_id
    }

    /// Cause of the health deduction: 0 projectile, 1 module offline, 5 impact.
    #[verifier::when_used_as_spec(spec_deduction_reason)]
    pub fn deduction_reason(&self) -> (r: Reason)
        ensures
            r == self.spec_deduction_reason(),
    {
        self.deduction_reason
    }

    /// The payload of every message is accepted, and two messages whose armor
    /// IDs fit in a nibble and whose payload bytes are equal are the same
    /// message, so unmarshaling what marshaling writes gives such a message back.
    pub proof fn lemma_payload_injective(a: HurtData, b: HurtData)
        requires
            a.armor_id() < 16,
            b.armor_id() < 16,
            a.spec_payload() == b.spec_payload(),
        ensures
            Self::spec_accepts(a.spec_payload()),
            a == b,
    {
        assert(a.spec_payload()[0] == a.armor_id + 16 * reason_code(a.deduction_reason));
        assert(b.spec_payload()[0] == b.armor_id + 16 * reason_code(b.deduction_reason));
    }

    /// Wire layout: the payload is one byte, the low nibble of the armor ID
    /// in its low nibble and the reason code in its high nibble (0 hit by a
    /// projectile, 1 module offline, 5 struck).
    pub proof fn lemma_payload_layout(m: HurtData)
        ensures
            m.spec_payload().len() == 1,
            m.spec_payload()[0] % 16 == m.armor_id() % 16,
            m.deduction_reason() == Reason::HitByProjectile <==> m.spec_payload()[0] / 16 == 0,
            m.deduction_reason() == Reason::ModuleOffline <==> m.spec_payload()[0] / 16 == 1,
            m.deduction_reason() == Reason::StruckByImpact <==> m.spec_payload()[0] / 16 == 5,
    {
        assert(m.spec_payload()[0] == m.armor_id % 16 + 16 * reason_code(m.deduction_reason));
    }

    /// Marshaling writes the armor ID's low nibble in the low nibble of the
    /// byte and the reason code (0 projectile, 1 offline, 5 struck) in its high
    /// nibble.
    pub proof fn lemma_marshal_layout(m: HurtData, payload: Seq<u8>, r: Result<usize, MarshalerError>)
        requires
            <HurtData as Marshaler>::marshals_to(&m, payload, r),
        ensures
            r == Ok::<usize, MarshalerError>(1),
            payload.len() == 1,
            payload[0] % 16 == m.armor_id() % 16,
            m.deduction_reason() == Reason::HitByProjectile <==> payload[0] / 16 == 0,
            m.deduction_reason() == Reason::ModuleOffline <==> payload[0] / 16 == 1,
            m.deduction_reason() == Reason::StruckByImpact <==> payload[0] / 16 == 5,
    {
        Self::lemma_payload_layout(m);
    }

    /// Unmarshaling reads the armor ID from the low nibble of the byte and the
    /// reason from its high nibble: 0 hit by a projectile, 1 module offline, 5
    /// struck; any other code is invalid data in field 0.
    pub proof fn lemma_unmarshal_layout(raw: Seq<u8>, r: Result<HurtData, MarshalerError>)
        requires
            raw.len() >= 1,
            <HurtData as Marshaler>::unmarshals_to(raw, r),
        ensures
            raw[0] / 16 == 0 ==> (r matches Ok(m) && m.deduction_reason() == Reason::HitByProjectile),
            raw[0] / 16 == 1 ==> (r matches Ok(m) && m.deduction_reason() == Reason::ModuleOffline),
            raw[0] / 16 == 5 ==> (r matches Ok(m) && m.deduction_reason() == Reason::StruckByImpact),
            r matches Ok(m) ==> m.armor_id() == raw[0] % 16,
            !(raw[0] / 16 == 0 || raw[0] / 16 == 1 || raw[0] / 16 == 5) ==> r == Err::<
                HurtData,
                MarshalerError,
            >(MarshalerError::InvalidData { field: 0 }),
    {
        if Self::spec_accepts(raw) {
            let m = r->Ok_0;
            Self::lemma_payload_layout(m);
            assert(m.spec_payload()[0] == raw.take(1)[0]);
        }
    }

    /// The command ID and payload size of this message.
    pub proof fn lemma_command_msg()
        ensures
            <HurtData as Marshaler>::CMD_ID == 0x0206,
            <HurtData as Marshaler>::PAYLOAD_SIZE == 1,
            <HurtData as ImplCommandMsg>::CMD_ID == 0x0206,
            <HurtData as ImplCommandMsg>::PAYLOAD_SIZE == 1,
    {
        lemma_command_msg_of::<HurtData>();
    }

    /// Unmarshaling what marshaling writes gives the message back.
    pub proof fn lemma_roundtrip(m: HurtData, payload: Seq<u8>, r: Result<HurtData, MarshalerError>)
        requires
            m.armor_id() < 16,
            <HurtData as Marshaler>::marshals_to(&m, payload, Ok(1)),
            <HurtData as Marshaler>::unmarshals_to(payload, r),
        ensures
            r == Ok::<HurtData, MarshalerError>(m),
    {
        let m2 = r->Ok_0;
        assert(payload.take(1) =~= payload);
        Self::lemma_payload_injective(m, m2);
    }
}

impl Marshaler for HurtData {
    const CMD_ID: u16 = 0x0206;
    const PAYLOAD_SIZE: u16 = 1;

    open spec fn marshals_to(&self, payload: Seq<u8>, r: Result<usize, MarshalerError>) -> bool {
        r == Ok::<usize, MarshalerError>(1) && payload == self.spec_payload()
    }

    open spec fn unmarshals_to(raw: Seq<u8>, r: Result<Self, MarshalerError>) -> bool {
        if Self::spec_accepts(raw) {
            r matches Ok(m) && m.spec_payload() == raw.take(1) && m.armor_id() < 16
        } else {
            r == Err::<Self, MarshalerError>(MarshalerError::InvalidData { field: 0 })
        }
    }

    fn marshal(&self, dst: &mut [u8]) -> (r: Result<usize, MarshalerError>)
        ensures
            r == Ok::<usize, MarshalerError>(1),
            final(dst)@ == splice(old(dst)@, 0, self.spec_payload()),
    {
        let ghost d0 = dst@;
        let code = encode_reason(self.deduction_reason);
        proof {
            lemma_join_nibbles(self.armor_id, code);
        }
        dst[0] = (self.armor_id & 0xF) | ((code & 0xF) << 4);
        assert(dst@ =~= splice(d0, 0, self.spec_payload()));
        assert(dst@.take(1) =~= self.spec_payload());
        Ok(1)
    }

    fn unmarshal(raw: &[u8]) -> (r: Result<Self, MarshalerError>)
    {
        proof {
            lemma_nibbles(raw@[0]);
        }
        let armor_id = raw[0] & 0x0F;
        let deduction_reason = match (raw[0] >> 4) & 0xF {
            0 => Reason::HitByProjectile,
            1 => Reason::ModuleOffline,
            5 => Reason::StruckByImpact,
            _ => {
                return Err(MarshalerError::InvalidData { field: 0 });
            },
        };
        let m = HurtData { armor_id, deduction_reason };
        assert(m.spec_payload() =~= raw@.take(1));
        Ok(m)
    }
}

} // verus!
