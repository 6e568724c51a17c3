//! `0x0002` — match result, sent when a match ends.

use vstd::prelude::*;
use crate::error::MarshalerError;
use crate::le::splice;
use crate::marshaler::{lemma_command_msg_of, ImplCommandMsg, Marshaler};

verus! {

/// Winner of a match.
#[derive(Debug, Clone, Copy, PartialEq, Eq, Structural)]
pub enum Winner {
    /// Draw (code 0).
    Draw,
    /// Red side wins (code 1).
    Red,
    /// Blue side wins (code 2).
    Blue,
}

/// The wire code of a winner.
pub open spec fn winner_code(w: Winner) -> u8 {
    match w {
        Winner::Draw => 0,
        Winner::Red => 1,
        Winner::Blue => 2,
    }
}

fn encode_winner(w: Winner) -> (r: u8)
    ensures
        r == winner_code(w),
{
    match w {
        Winner::Draw => 0,
        Winner::Red => 1,
        Winner::Blue => 2,
    }
}

/// Match result.
#[derive(Debug, Clone, Copy)]
pub struct GameResult {
    winner: Winner,
}

impl GameResult {
    pub closed spec fn spec_winner(&self) -> Winner {
        self.winner
    }

    /// The payload bytes of this message.
    pub open spec fn spec_payload(&self) -> Seq<u8> {
        seq![winner_code(self.winner())]
    }

    /// The payload bytes `raw` hold a valid winner code.
    pub open spec fn spec_accepts(raw: Seq<u8>) -> bool {
        raw[0] <= 2
    }

    pub fn new(winner: Winner) -> (r: GameResult)
        ensures
            r.winner() == winner,
    {
        GameResult { winner }
    }

    /// Winner: 0 draw, 1 red, 2 blue.
    #[verifier::when_used_as_spec(spec_winner)]
    pub fn winner(&self) -> (r: Winner)
        ensures
            r == self.spec_winner(),
    {
        self.winner
    }

    /// The payload of every message is accepted, and two messages with the same
    /// payload bytes are the same message, so unmarshaling what marshaling
    /// writes gives the message back.
    pub proof fn lemma_payload_injective(a: GameResult, b: GameResult)
        requires
            a.spec_payload() == b.spec_payload(),
        ensures
            Self::spec_accepts(a.spec_payload()),
            a == b,
    {
        assert(a.spec_payload()[0] == winner_code(a.winner));
        assert(b.spec_payload()[0] == winner_code(b.winner));
    }

    /// Wire layout: the payload is one byte, 0 for a draw, 1 when red wins,
    /// 2 when blue wins.
    pub proof fn lemma_payload_layout(m: GameResult)
        ensures
            m.spec_payload().len() == 1,
            m.winner() == Winner::Draw <==> m.spec_payload()[0] == 0,
            m.winner() == Winner::Red <==> m.spec_payload()[0] == 1,
            m.winner() == Winner::Blue <==> m.spec_payload()[0] == 2,
    {
    }

    /// Marshaling writes 0 for a draw, 1 when red wins, 2 when blue wins.
    pub proof fn lemma_marshal_layout(m: GameResult, payload: Seq<u8>, r: Result<usize, MarshalerError>)
        requires
            <GameResult as Marshaler>::marshals_to(&m, payload, r),
        ensures
            r == Ok::<usize, MarshalerError>(1),
            payload.len() == 1,
            m.winner() == Winner::Draw <==> payload[0] == 0,
            m.winner() == Winner::Red <==> payload[0] == 1,
            m.winner() == Winner::Blue <==> payload[0] == 2,
    {
        Self::lemma_payload_layout(m);
    }

    /// Unmarshaling reads code 0 as a draw, 1 as a red win, 2 as a blue win,
    /// and refuses any other code as invalid data in field 0.
    pub proof fn lemma_unmarshal_layout(raw: Seq<u8>, r: Result<GameResult, MarshalerError>)
        requires
            raw.len() >= 1,
            <GameResult as Marshaler>::unmarshals_to(raw, r),
        ensures
            raw[0] == 0 ==> (r matches Ok(m) && m.winner() == Winner::Draw),
            raw[0] == 1 ==> (r matches Ok(m) && m.winner() == Winner::Red),
            raw[0] == 2 ==> (r matches Ok(m) && m.winner() == Winner::Blue),
            raw[0] > 2 ==> r == Err::<GameResult, MarshalerError>(
                MarshalerError::InvalidData { field: 0 },
            ),
    {
        if raw[0] <= 2 {
            let m = r->Ok_0;
            Self::lemma_payload_layout(m);
            assert(m.spec_payload()[0] == raw.take(1)[0]);
        }
    }

    /// The command ID and payload size of this message.
    pub proof fn lemma_command_msg()
        ensures
            <GameResult as Marshaler>::CMD_ID == 0x0002,
            <GameResult as Marshaler>::PAYLOAD_SIZE == 1,
            <GameResult as ImplCommandMsg>::CMD_ID == 0x0002,
            <GameResult as ImplCommandMsg>::PAYLOAD_SIZE == 1,
    {
        lemma_command_msg_of::<GameResult>();
    }

    /// Unmarshaling what marshaling writes gives the message back.
    pub proof fn lemma_roundtrip(m: GameResult, payload: Seq<u8>, r: Result<GameResult, MarshalerError>)
        requires
            <GameResult as Marshaler>::marshals_to(&m, payload, Ok(1)),
            <GameResult as Marshaler>::unmarshals_to(payload, r),
        ensures
            r == Ok::<GameResult, MarshalerError>(m),
    {
        let m2 = r->Ok_0;
        assert(payload.take(1) =~= payload);
        Self::lemma_payload_injective(m, m2);
    }
}

impl Marshaler for GameResult {
    const CMD_ID: u16 = 0x0002;
    const PAYLOAD_SIZE: u16 = 1;

    open spec fn marshals_to(&self, payload: Seq<u8>, r: Result<usize, MarshalerError>) -> bool {
        r == Ok::<usize, MarshalerError>(1) && payload == self.spec_payload()
    }

    open spec fn unmarshals_to(raw: Seq<u8>, r: Result<Self, MarshalerError>) -> bool {
        if Self::spec_accepts(raw) {
            r matches Ok(m) && m.spec_payload() == raw.take(1)
        } else {
            r == Err::<Self, MarshalerError>(MarshalerError::InvalidData { field: 0 })
        }
    }

    fn marshal(&self, dst: &mut [u8]) -> (r: Result<usize, MarshalerError>)
        ensures
            r == Ok::<usize, MarshalerError>(1),
            final(dst)@ == splice(old(dst)@, 0, self.spec_payload()),
    {
        let ghost d0 = dst@;
        dst[0] = encode_winner(self.winner);
        assert(dst@ =~= splice(d0, 0, self.spec_payload()));
        assert(dst@.take(1) =~= self.spec_payload());
        Ok(1)
    }

    fn unmarshal(raw: &[u8]) -> (r: Result<Self, MarshalerError>)
        ensures
            raw@[0] == 0 ==> (r matches Ok(m) && m.winner() == Winner::Draw),
            raw@[0] == 1 ==> (r matches Ok(m) && m.winner() == Winner::Red),
            raw@[0] == 2 ==> (r matches Ok(m) && m.winner() == Winner::Blue),
            raw@[0] > 2 ==> r == Err::<GameResult, MarshalerError>(
                MarshalerError::InvalidData { field: 0 },
            ),
    {
        let winner = match raw[0] {
            0 => Winner::Draw,
            1 => Winner::Red,
            2 => Winner::Blue,
            _ => {
                return Err(MarshalerError::InvalidData { field: 0 });
            },
        };
        let m = GameResult { winner };
        assert(m.spec_payload() =~= raw@.take(1));
        Ok(m)
    }
}

} // verus!
