//! `0x0104` — referee warning, sent on a penalty and otherwise at 1 Hz.

use vstd::prelude::*;
use crate::error::MarshalerError;
use crate::le::splice;
use crate::marshaler::{lemma_command_msg_of, ImplCommandMsg, Marshaler};

verus! {

/// Penalty level.
#[derive(Debug, Clone, Copy, PartialEq, Eq, Structural)]
pub enum Level {
    /// Yellow card for both sides (code 1; robot ID 0).
    YellowCardBoth,
    /// Yellow card (code 2).
    YellowCard,
    /// Red card (code 3).
    RedCard,
    /// Forfeit (code 4; robot ID 0).
    Loss,
}

/// The wire code of a penalty level.
pub open spec fn level_code(l: Level) -> u8 {
    match l {
        Level::YellowCardBoth => 1,
        Level::YellowCard => 2,
        Level::RedCard => 3,
        Level::Loss => 4,
    }
}

fn encode_level(l: Level) -> (r: u8)
    ensures
        r == level_code(l),
{
    match l {
        Level::YellowCardBoth => 1,
        Level::YellowCard => 2,
        Level::RedCard => 3,
        Level::Loss => 4,
    }
}

/// Referee warning.
#[derive(Debug, Clone, Copy)]
pub struct RefereeWarning {
    level: Level,
    robot_id: u8,
    count: u8,
}

impl RefereeWarning {
    pub closed spec fn spec_level(&self) -> Level {
        self.level
    }

    pub closed spec fn spec_robot_id(&self) -> u8 {
        self.robot_id
    }

    pub closed spec fn spec_count(&self) -> u8 {
        self.count
    }

    /// The payload bytes of this message.
    pub open spec fn spec_payload(&self) -> Seq<u8> {
        seq![level_code(self.level()), self.robot_id(), self.count()]
    }

    /// The payload bytes `raw` hold a valid level code.
    pub open spec fn spec_accepts(raw: Seq<u8>) -> bool {
        1 <= raw[0] <= 4
    }

    pub fn new(level: Level, robot_id: u8, count: u8) -> (r: RefereeWarning)
        ensures
            r.level() == level,
            r.robot_id() == robot_id,
            r.count() == count,
    {
        RefereeWarning { level, robot_id, count }
    }

    /// Level of the last penalty: 1 yellow card for both, 2 yellow card, 3 red card, 4 forfeit.
    #[verifier::when_used_as_spec(spec_level)]
    pub fn level(&self) -> (r: Level)
        ensures
            r == self.spec_level(),
    {
        self.level
    }

    /// ID of the robot of the last penalty (0 for a forfeit or a yellow card for both).
    #[verifier::when_used_as_spec(spec_robot_id)]
    pub fn robot_id(&self) -> (r: u8)
        ensures
            r == self.spec_robot_id(),
    {
        self.robot_id
    }

    /// Number of offences of that robot at that level.
    #[verifier::when_used_as_spec(spec_count)]
    pub fn count(&self) -> (r: u8)
        ensures
            r == self.spec_count(),
    {
        self.count
    }

    /// The payload of every message is accepted, and two messages with the same
    /// payload bytes are the same message, so unmarshaling what marshaling
    /// writes gives the message back.
    pub proof fn lemma_payload_injective(a: RefereeWarning, b: RefereeWarning)
        requires
            a.spec_payload() == b.spec_payload(),
        ensures
            Self::spec_accepts(a.spec_payload()),
            a == b,
    {
        assert(a.spec_payload()[0] == level_code(a.level));
        assert(b.spec_payload()[0] == level_code(b.level));
        assert(a.spec_payload()[1] == a.robot_id && b.spec_payload()[1] == b.robot_id);
        assert(a.spec_payload()[2] == a.count && b.spec_payload()[2] == b.count);
    }

    /// Wire layout: the payload is three bytes: the level code (1 yellow
    /// card for both sides, 2 yellow card, 3 red card, 4 forfeit), the robot ID
    /// and the count.
    pub proof fn lemma_payload_layout(m: RefereeWarning)
        ensures
            m.spec_payload().len() == 3,
            m.level() == Level::YellowCardBoth <==> m.spec_payload()[0] == 1,
            m.level() == Level::YellowCard <==> m.spec_payload()[0] == 2,
            m.level() == Level::RedCard <==> m.spec_payload()[0] == 3,
            m.level() == Level::Loss <==> m.spec_payload()[0] == 4,
            m.robot_id() == m.spec_payload()[1],
            m.count() == m.spec_payload()[2],
    {
    }

    /// Marshaling writes the level code (1 yellow card for both sides, 2
    /// yellow card, 3 red card, 4 forfeit) at byte 0, the robot ID at byte 1
    /// and the count at byte 2.
    pub proof fn lemma_marshal_layout(m: RefereeWarning, payload: Seq<u8>, r: Result<usize, MarshalerError>)
        requires
            <RefereeWarning as Marshaler>::marshals_to(&m, payload, r),
        ensures
            r == Ok::<usize, MarshalerError>(3),
            payload.len() == 3,
            m.level() == Level::YellowCardBoth <==> payload[0] == 1,
            m.level() == Level::YellowCard <==> payload[0] == 2,
            m.level() == Level::RedCard <==> payload[0] == 3,
            m.level() == Level::Loss <==> payload[0] == 4,
            m.robot_id() == payload[1],
            m.count() == payload[2],
    {
        Self::lemma_payload_layout(m);
    }

    /// Unmarshaling reads level code 1 as a yellow card for both sides, 2 as
    /// a yellow card, 3 as a red card and 4 as a forfeit, any other code being
    /// invalid data in field 0; the robot ID is byte 1 and the count byte 2.
    pub proof fn lemma_unmarshal_layout(raw: Seq<u8>, r: Result<RefereeWarning, MarshalerError>)
        requires
            raw.len() >= 3,
            <RefereeWarning as Marshaler>::unmarshals_to(raw, r),
        ensures
            raw[0] == 1 ==> (r matches Ok(m) && m.level() == Level::YellowCardBoth),
            raw[0] == 2 ==> (r matches Ok(m) && m.level() == Level::YellowCard),
            raw[0] == 3 ==> (r matches Ok(m) && m.level() == Level::RedCard),
            raw[0] == 4 ==> (r matches Ok(m) && m.level() == Level::Loss),
            r matches Ok(m) ==> m.robot_id() == raw[1] && m.count() == raw[2],
            !(1 <= raw[0] <= 4) ==> r == Err::<RefereeWarning, MarshalerError>(
                MarshalerError::InvalidData { field: 0 },
            ),
    {
        if Self::spec_accepts(raw) {
            let m = r->Ok_0;
            Self::lemma_payload_layout(m);
            assert(m.spec_payload()[0] == raw.take(3)[0]);
            assert(m.spec_payload()[1] == raw.take(3)[1]);
            assert(m.spec_payload()[2] == raw.take(3)[2]);
        }
    }

    /// The command ID and payload size of this message.
    pub proof fn lemma_command_msg()
        ensures
            <RefereeWarning as Marshaler>::CMD_ID == 0x0104,
            <RefereeWarning as Marshaler>::PAYLOAD_SIZE == 3,
            <RefereeWarning as ImplCommandMsg>::CMD_ID == 0x0104,
            <RefereeWarning as ImplCommandMsg>::PAYLOAD_SIZE == 3,
    {
        lemma_command_msg_of::<RefereeWarning>();
    }

    /// Unmarshaling what marshaling writes gives the message back.
    pub proof fn lemma_roundtrip(m: RefereeWarning, payload: Seq<u8>, r: Result<RefereeWarning, MarshalerError>)
        requires
            <RefereeWarning as Marshaler>::marshals_to(&m, payload, Ok(3)),
            <RefereeWarning as Marshaler>::unmarshals_to(payload, r),
        ensures
            r == Ok::<RefereeWarning, MarshalerError>(m),
    {
        let m2 = r->Ok_0;
        assert(payload.take(3) =~= payload);
        Self::lemma_payload_injective(m, m2);
    }
}

impl Marshaler for RefereeWarning {
    const CMD_ID: u16 = 0x0104;
    const PAYLOAD_SIZE: u16 = 3;

    open spec fn marshals_to(&self, payload: Seq<u8>, r: Result<usize, MarshalerError>) -> bool {
        r == Ok::<usize, MarshalerError>(3) && payload == self.spec_payload()
    }

    open spec fn unmarshals_to(raw: Seq<u8>, r: Result<Self, MarshalerError>) -> bool {
        if Self::spec_accepts(raw) {
            r matches Ok(m) && m.spec_payload() == raw.take(3)
        } else {
            r == Err::<Self, MarshalerError>(MarshalerError::InvalidData { field: 0 })
        }
    }

    fn marshal(&self, dst: &mut [u8]) -> (r: Result<usize, MarshalerError>)
        ensures
            r == Ok::<usize, MarshalerError>(3),
            final(dst)@ == splice(old(dst)@, 0, self.spec_payload()),
    {
        let ghost d0 = dst@;
        dst[0] = encode_level(self.level);
        dst[1] = self.robot_id;
        dst[2] = self.count;
        assert(dst@ =~= splice(d0, 0, self.spec_payload()));
        assert(dst@.take(3) =~= self.spec_payload());
        Ok(3)
    }

    fn unmarshal(raw: &[u8]) -> (r: Result<Self, MarshalerError>)
    {
        let level = match raw[0] {
            1 => Level::YellowCardBoth,
            2 => Level::YellowCard,
            3 => Level::RedCard,
            4 => Level::Loss,
            _ => {
                return Err(MarshalerError::InvalidData { field: 0 });
            },
        };
        let m = RefereeWarning { level, robot_id: raw[1], count: raw[2] };
        assert(m.spec_payload() =~= raw@.take(3));
        Ok(m)
    }
}

} // verus!
