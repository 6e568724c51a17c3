//! `0x0001` — match status, sent at 1 Hz.

use vstd::prelude::*;
use crate::error::MarshalerError;
use crate::le::{le_bytes, lemma_le_bytes_len, lemma_le_field, lemma_le_bytes_of_value, lemma_le_value_bound, lemma_le_value_of_bytes, lemma_pow256_values, read_le, splice, write_le};
use crate::marshaler::{lemma_command_msg_of, ImplCommandMsg, Marshaler};
use crate::serial::{lemma_join_nibbles, lemma_nibbles};

verus! {

/// Type of competition.
#[derive(Debug, Clone, Copy, PartialEq, Eq, Structural)]
pub enum GameType {
    /// RoboMaster University Championship (code 1).
    RMUC,
    /// RoboMaster University Technical Challenge (code 2).
    RMUT,
    /// ICRA RoboMaster University AI Challenge (code 3).
    RMUA,
    /// RoboMaster University League, 3V3 (code 4).
    RMUL3V3,
    /// RoboMaster University League, 1V1 infantry (code 5).
    RMUL1V1,
}

/// Stage of the current match.
#[derive(Debug, Clone, Copy, PartialEq, Eq, Structural)]
pub enum GameProgress {
    /// Not started (code 0).
    NotStarted,
    /// Preparation (code 1).
    Prepared,
    /// Fifteen-second referee system self-check (code 2).
    SelfCheck,
    /// Five-second countdown (code 3).
    CountDown5s,
    /// In progress (code 4).
    InProgress,
    /// Settling the result (code 5).
    Calculating,
}

/// The wire code of a competition type.
pub open spec fn game_type_code(t: GameType) -> u8 {
    match t {
        GameType::RMUC => 1,
        GameType::RMUT => 2,
        GameType::RMUA => 3,
        GameType::RMUL3V3 => 4,
        GameType::RMUL1V1 => 5,
    }
}

/// The wire code of a match stage.
pub open spec fn game_progress_code(p: GameProgress) -> u8 {
    match p {
        GameProgress::NotStarted => 0,
        GameProgress::Prepared => 1,
        GameProgress::SelfCheck => 2,
        GameProgress::CountDown5s => 3,
        GameProgress::InProgress => 4,
        GameProgress::Calculating => 5,
    }
}

fn encode_game_type(t: GameType) -> (r: u8)
    ensures
        r == game_type_code(t),
{
    match t {
        GameType::RMUC => 1,
        GameType::RMUT => 2,
        GameType::RMUA => 3,
        GameType::RMUL3V3 => 4,
        GameType::RMUL1V1 => 5,
    }
}

fn encode_game_progress(p: GameProgress) -> (r: u8)
    ensures
        r == game_progress_code(p),
{
    match p {
        GameProgress::NotStarted => 0,
        GameProgress::Prepared => 1,
        GameProgress::SelfCheck => 2,
        GameProgress::CountDown5s => 3,
        GameProgress::InProgress => 4,
        GameProgress::Calculating => 5,
    }
}

/// Match status.
#[derive(Debug, Clone, Copy)]
pub struct GameStatus {
    game_type: GameType,
    game_progress: GameProgress,
    remaining_time_s: u16,
    unix_timestamp: u64,
}

impl GameStatus {
    pub closed spec fn spec_game_type(&self) -> GameType {
        self.game_type
    }

    pub closed spec fn spec_game_progress(&self) -> GameProgress {
        self.game_progress
    }

    pub closed spec fn spec_remaining_time_s(&self) -> u16 {
        self.remaining_time_s
    }

    pub closed spec fn spec_unix_timestamp(&self) -> u64 {
        self.unix_timestamp
    }

    /// The payload bytes of this message: competition type in the low nibble
    /// and match stage in the high nibble of the first byte, then the
    /// remaining time and the UNIX time.
    pub open spec fn spec_payload(&self) -> Seq<u8> {
        seq![(game_type_code(self.game_type()) + 16 * game_progress_code(self.game_progress())) as u8]
            + le_bytes(self.remaining_time_s() as nat, 2) + le_bytes(
            self.unix_timestamp() as nat,
            8,
        )
    }

    /// The low nibble of the first payload byte is a competition type code.
    pub open spec fn spec_type_valid(raw: Seq<u8>) -> bool {
        1 <= raw[0] % 16 <= 5
    }

    /// The high nibble of the first payload byte is a match stage code.
    pub open spec fn spec_progress_valid(raw: Seq<u8>) -> bool {
        raw[0] / 16 <= 5
    }

    pub fn new(
        game_type: GameType,
        game_progress: GameProgress,
        remaining_time_s: u16,
        unix_timestamp: u64,
    ) -> (r: GameStatus)
        ensures
            r.game_type() == game_type,
            r.game_progress() == game_progress,
            r.remaining_time_s() == remaining_time_s,
            r.unix_timestamp() == unix_timestamp,
    {
        GameStatus { game_type, game_progress, remaining_time_s, unix_timestamp }
    }

    /// Type of competition.
    #[verifier::when_used_as_spec(spec_game_type)]
    pub fn game_type(&self) -> (r: GameType)
        ensures
            r == self.spec_game_type(),
    {
        self.game_type
    }

    /// Stage of the current match.
    #[verifier::when_used_as_spec(spec_game_progress)]
    pub fn game_progress(&self) -> (r: GameProgress)
        ensures
            r == self.spec_game_progress(),
    {
        self.game_progress
    }

    /// Remaining time of the current stage, in seconds.
    #[verifier::when_used_as_spec(spec_remaining_time_s)]
    pub fn remaining_time_s(&self) -> (r: u16)
        ensures
            r == self.spec_remaining_time_s(),
    {
        self.remaining_time_s
    }

    /// UNIX time, valid once the robot reaches the referee system's NTP server.
    #[verifier::when_used_as_spec(spec_unix_timestamp)]
    pub fn unix_timestamp(&self) -> (r: u64)
        ensures
            r == self.spec_unix_timestamp(),
    {
        self.unix_timestamp
    }

    /// The payload of every message is accepted, and two messages with the same
    /// payload bytes are the same message, so unmarshaling what marshaling
    /// writes gives the message back.
    pub proof fn lemma_payload_injective(a: GameStatus, b: GameStatus)
        requires
            a.spec_payload() == b.spec_payload(),
        ensures
            Self::spec_type_valid(a.spec_payload()),
            Self::spec_progress_valid(a.spec_payload()),
            a == b,
    {
        lemma_pow256_values();
        lemma_le_bytes_len(a.remaining_time_s as nat, 2);
        lemma_le_bytes_len(b.remaining_time_s as nat, 2);
        lemma_le_bytes_len(a.unix_timestamp as nat, 8);
        lemma_le_bytes_len(b.unix_timestamp as nat, 8);
        let p = a.spec_payload();
        let q = b.spec_payload();
        assert(p[0] == game_type_code(a.game_type) + 16 * game_progress_code(a.game_progress));
        assert(q[0] == game_type_code(b.game_type) + 16 * game_progress_code(b.game_progress));
        assert(p.subrange(1, 3) == le_bytes(a.remaining_time_s as nat, 2));
        assert(q.subrange(1, 3) == le_bytes(b.remaining_time_s as nat, 2));
        assert(p.subrange(3, 11) == le_bytes(a.unix_timestamp as nat, 8));
        assert(q.subrange(3, 11) == le_bytes(b.unix_timestamp as nat, 8));
        lemma_le_value_of_bytes(a.remaining_time_s as nat, 2);
        lemma_le_value_of_bytes(b.remaining_time_s as nat, 2);
        lemma_le_value_of_bytes(a.unix_timestamp as nat, 8);
        lemma_le_value_of_bytes(b.unix_timestamp as nat, 8);
    }

    /// Wire layout: the payload is eleven bytes; the low nibble of byte 0 is
    /// the competition type (RMUC 1, RMUT 2, RMUA 3, RMUL 3V3 4, RMUL 1V1 5),
    /// its high nibble the match stage (0 to 5 in the order of
    /// [`GameProgress`]), bytes 1 and 2 the remaining time and bytes 3 to 10
    /// the UNIX time, least significant byte first.
    pub proof fn lemma_payload_layout(m: GameStatus)
        ensures
            m.spec_payload().len() == 11,
            m.game_type() == GameType::RMUC <==> m.spec_payload()[0] % 16 == 1,
            m.game_type() == GameType::RMUT <==> m.spec_payload()[0] % 16 == 2,
            m.game_type() == GameType::RMUA <==> m.spec_payload()[0] % 16 == 3,
            m.game_type() == GameType::RMUL3V3 <==> m.spec_payload()[0] % 16 == 4,
            m.game_type() == GameType::RMUL1V1 <==> m.spec_payload()[0] % 16 == 5,
            m.game_progress() == GameProgress::NotStarted <==> m.spec_payload()[0] / 16 == 0,
            m.game_progress() == GameProgress::Prepared <==> m.spec_payload()[0] / 16 == 1,
            m.game_progress() == GameProgress::SelfCheck <==> m.spec_payload()[0] / 16 == 2,
            m.game_progress() == GameProgress::CountDown5s <==> m.spec_payload()[0] / 16 == 3,
            m.game_progress() == GameProgress::InProgress <==> m.spec_payload()[0] / 16 == 4,
            m.game_progress() == GameProgress::Calculating <==> m.spec_payload()[0] / 16 == 5,
            m.remaining_time_s() == m.spec_payload()[1] + 256 * m.spec_payload()[2],
            m.unix_timestamp() == m.spec_payload()[3] + 0x100 * m.spec_payload()[4] + 0x1_0000 * m.spec_payload()[5] + 0x100_0000 * m.spec_payload()[6]
                + 0x1_0000_0000 * m.spec_payload()[7] + 0x100_0000_0000 * m.spec_payload()[8] + 0x1_0000_0000_0000 * m.spec_payload()[9]
                + 0x100_0000_0000_0000 * m.spec_payload()[10],
    {
        lemma_pow256_values();
        let p = m.spec_payload();
        lemma_le_bytes_len(m.remaining_time_s as nat, 2);
        lemma_le_bytes_len(m.unix_timestamp as nat, 8);
        assert(p[0] == game_type_code(m.game_type) + 16 * game_progress_code(m.game_progress));
        assert(p.subrange(1, 3) == le_bytes(m.remaining_time_s as nat, 2));
        assert(p.subrange(3, 11) == le_bytes(m.unix_timestamp as nat, 8));
        lemma_le_field(p, 1, m.remaining_time_s as nat, 2);
        lemma_le_field(p, 3, m.unix_timestamp as nat, 8);
    }

    /// Marshaling writes the competition type code in the low nibble of byte 0
    /// (RMUC 1, RMUT 2, RMUA 3, RMUL 3V3 4, RMUL 1V1 5), the stage code in its
    /// high nibble, then the remaining time and the UNIX time.
    pub proof fn lemma_marshal_layout(m: GameStatus, payload: Seq<u8>, r: Result<usize, MarshalerError>)
        requires
            <GameStatus as Marshaler>::marshals_to(&m, payload, r),
        ensures
            r == Ok::<usize, MarshalerError>(11),
            payload.len() == 11,
            m.game_type() == GameType::RMUC <==> payload[0] % 16 == 1,
            m.game_type() == GameType::RMUT <==> payload[0] % 16 == 2,
            m.game_type() == GameType::RMUA <==> payload[0] % 16 == 3,
            m.game_type() == GameType::RMUL3V3 <==> payload[0] % 16 == 4,
            m.game_type() == GameType::RMUL1V1 <==> payload[0] % 16 == 5,
            m.game_progress() == GameProgress::NotStarted <==> payload[0] / 16 == 0,
            m.game_progress() == GameProgress::Prepared <==> payload[0] / 16 == 1,
            m.game_progress() == GameProgress::SelfCheck <==> payload[0] / 16 == 2,
            m.game_progress() == GameProgress::CountDown5s <==> payload[0] / 16 == 3,
            m.game_progress() == GameProgress::InProgress <==> payload[0] / 16 == 4,
            m.game_progress() == GameProgress::Calculating <==> payload[0] / 16 == 5,
            m.remaining_time_s() == payload[1] + 256 * payload[2],
            m.unix_timestamp() == payload[3] + 0x100 * payload[4] + 0x1_0000 * payload[5] + 0x100_0000 * payload[6]
                + 0x1_0000_0000 * payload[7] + 0x100_0000_0000 * payload[8] + 0x1_0000_0000_0000 * payload[9]
                + 0x100_0000_0000_0000 * payload[10],
    {
        Self::lemma_payload_layout(m);
    }

    /// Unmarshaling reads the competition type from the low nibble of byte 0
    /// (1 RMUC, 2 RMUT, 3 RMUA, 4 RMUL 3V3, 5 RMUL 1V1; any other code is
    /// invalid data in field 0), the stage from its high nibble (0 to 5; any
    /// other is invalid data in field 1), then the remaining time from bytes 1
    /// and 2 and the UNIX time from bytes 3 to 10.
    pub proof fn lemma_unmarshal_layout(raw: Seq<u8>, r: Result<GameStatus, MarshalerError>)
        requires
            raw.len() >= 11,
            <GameStatus as Marshaler>::unmarshals_to(raw, r),
        ensures
            !(1 <= raw[0] % 16 <= 5) ==> r == Err::<GameStatus, MarshalerError>(
                MarshalerError::InvalidData { field: 0 },
            ),
            1 <= raw[0] % 16 <= 5 && raw[0] / 16 > 5 ==> r == Err::<GameStatus, MarshalerError>(
                MarshalerError::InvalidData { field: 1 },
            ),
            1 <= raw[0] % 16 <= 5 && raw[0] / 16 <= 5 ==> r is Ok,
            r is Ok ==> {
                let m = r->Ok_0;
                &&& (m.game_type() == GameType::RMUC <==> raw[0] % 16 == 1)
                &&& (m.game_type() == GameType::RMUT <==> raw[0] % 16 == 2)
                &&& (m.game_type() == GameType::RMUA <==> raw[0] % 16 == 3)
                &&& (m.game_type() == GameType::RMUL3V3 <==> raw[0] % 16 == 4)
                &&& (m.game_type() == GameType::RMUL1V1 <==> raw[0] % 16 == 5)
                &&& (m.game_progress() == GameProgress::NotStarted <==> raw[0] / 16 == 0)
                &&& (m.game_progress() == GameProgress::Prepared <==> raw[0] / 16 == 1)
                &&& (m.game_progress() == GameProgress::SelfCheck <==> raw[0] / 16 == 2)
                &&& (m.game_progress() == GameProgress::CountDown5s <==> raw[0] / 16 == 3)
                &&& (m.game_progress() == GameProgress::InProgress <==> raw[0] / 16 == 4)
                &&& (m.game_progress() == GameProgress::Calculating <==> raw[0] / 16 == 5)
                &&& (m.remaining_time_s() == raw[1] + 256 * raw[2])
                &&& (m.unix_timestamp() == raw[3] + 0x100 * raw[4] + 0x1_0000 * raw[5] + 0x100_0000 * raw[6]
                    + 0x1_0000_0000 * raw[7] + 0x100_0000_0000 * raw[8] + 0x1_0000_0000_0000 * raw[9]
                    + 0x100_0000_0000_0000 * raw[10])
            },
    {
        if r is Ok {
            let m = r->Ok_0;
            Self::lemma_payload_layout(m);
            assert(m.spec_payload() == raw.take(11));
            assert forall|k: int| 0 <= k < 11 implies m.spec_payload()[k] == raw[k] by {
                assert(raw.take(11)[k] == raw[k]);
            }
        }
    }

    /// The command ID and payload size of this message.
    pub proof fn lemma_command_msg()
        ensures
            <GameStatus as Marshaler>::CMD_ID == 0x0001,
            <GameStatus as Marshaler>::PAYLOAD_SIZE == 11,
            <GameStatus as ImplCommandMsg>::CMD_ID == 0x0001,
            <GameStatus as ImplCommandMsg>::PAYLOAD_SIZE == 11,
    {
        lemma_command_msg_of::<GameStatus>();
    }

    /// Unmarshaling what marshaling writes gives the message back.
    pub proof fn lemma_roundtrip(m: GameStatus, payload: Seq<u8>, r: Result<GameStatus, MarshalerError>)
        requires
            <GameStatus as Marshaler>::marshals_to(&m, payload, Ok(11)),
            <GameStatus as Marshaler>::unmarshals_to(payload, r),
        ensures
            r == Ok::<GameStatus, MarshalerError>(m),
    {
        lemma_le_bytes_len(m.remaining_time_s as nat, 2);
        lemma_le_bytes_len(m.unix_timestamp as nat, 8);
        let m2 = r->Ok_0;
        assert(payload.take(11) =~= payload);
        Self::lemma_payload_injective(m, m2);
    }
}

impl Marshaler for GameStatus {
    const CMD_ID: u16 = 0x0001;
    const PAYLOAD_SIZE: u16 = 11;

    open spec fn marshals_to(&self, payload: Seq<u8>, r: Result<usize, MarshalerError>) -> bool {
        r == Ok::<usize, MarshalerError>(11) && payload == self.spec_payload()
    }

    open spec fn unmarshals_to(raw: Seq<u8>, r: Result<Self, MarshalerError>) -> bool {
        if !Self::spec_type_valid(raw) {
            r == Err::<Self, MarshalerError>(MarshalerError::InvalidData { field: 0 })
        } else if !Self::spec_progress_valid(raw) {
            r == Err::<Self, MarshalerError>(MarshalerError::InvalidData { field: 1 })
        } else {
            r matches Ok(m) && m.spec_payload() == raw.take(11)
        }
    }

    fn marshal(&self, dst: &mut [u8]) -> (r: Result<usize, MarshalerError>)
        ensures
            r == Ok::<usize, MarshalerError>(11),
            final(dst)@ == splice(old(dst)@, 0, self.spec_payload()),
    {
        proof {
            lemma_le_bytes_len(self.remaining_time_s as nat, 2);
            lemma_le_bytes_len(self.unix_timestamp as nat, 8);
        }
        let ghost d0 = dst@;
        let t = encode_game_type(self.game_type);
        let p = encode_game_progress(self.game_progress);
        proof {
            lemma_join_nibbles(t, p);
        }
        dst[0] = (t & 0xF) | ((p & 0xF) << 4);
        write_le(dst, 1, self.remaining_time_s as u64, 2);
        write_le(dst, 3, self.unix_timestamp, 8);
        assert(dst@ =~= splice(d0, 0, self.spec_payload()));
        assert(dst@.take(11) =~= self.spec_payload());
        Ok(11)
    }

    fn unmarshal(raw: &[u8]) -> (r: Result<Self, MarshalerError>)
        ensures
            !(1 <= raw@[0] % 16 <= 5) ==> r == Err::<GameStatus, MarshalerError>(
                MarshalerError::InvalidData { field: 0 },
            ),
            1 <= raw@[0] % 16 <= 5 && raw@[0] / 16 > 5 ==> r == Err::<GameStatus, MarshalerError>(
                MarshalerError::InvalidData { field: 1 },
            ),
            1 <= raw@[0] % 16 <= 5 && raw@[0] / 16 <= 5 ==> r is Ok,
            r is Ok ==> {
                let m = r->Ok_0;
                &&& (m.game_type() == GameType::RMUC <==> raw@[0] % 16 == 1)
                &&& (m.game_type() == GameType::RMUT <==> raw@[0] % 16 == 2)
                &&& (m.game_type() == GameType::RMUA <==> raw@[0] % 16 == 3)
                &&& (m.game_type() == GameType::RMUL3V3 <==> raw@[0] % 16 == 4)
                &&& (m.game_type() == GameType::RMUL1V1 <==> raw@[0] % 16 == 5)
                &&& (m.game_progress() == GameProgress::NotStarted <==> raw@[0] / 16 == 0)
                &&& (m.game_progress() == GameProgress::Prepared <==> raw@[0] / 16 == 1)
                &&& (m.game_progress() == GameProgress::SelfCheck <==> raw@[0] / 16 == 2)
                &&& (m.game_progress() == GameProgress::CountDown5s <==> raw@[0] / 16 == 3)
                &&& (m.game_progress() == GameProgress::InProgress <==> raw@[0] / 16 == 4)
                &&& (m.game_progress() == GameProgress::Calculating <==> raw@[0] / 16 == 5)
                &&& (m.remaining_time_s() == raw@[1] + 256 * raw@[2])
                &&& (m.unix_timestamp() == raw@[3] + 0x100 * raw@[4] + 0x1_0000 * raw@[5] + 0x100_0000 * raw@[6]
                    + 0x1_0000_0000 * raw@[7] + 0x100_0000_0000 * raw@[8] + 0x1_0000_0000_0000 * raw@[9]
                    + 0x100_0000_0000_0000 * raw@[10])
            },
    {
        proof {
            lemma_nibbles(raw@[0]);
        }
        let game_type = match raw[0] & 0xF {
            1 => GameType::RMUC,
            2 => GameType::RMUT,
            3 => GameType::RMUA,
            4 => GameType::RMUL3V3,
            5 => GameType::RMUL1V1,
            _ => {
                return Err(MarshalerError::InvalidData { field: 0 });
            },
        };
        let game_progress = match (raw[0] >> 4) & 0xF {
            0 => GameProgress::NotStarted,
            1 => GameProgress::Prepared,
            2 => GameProgress::SelfCheck,
            3 => GameProgress::CountDown5s,
            4 => GameProgress::InProgress,
            5 => GameProgress::Calculating,
            _ => {
                return Err(MarshalerError::InvalidData { field: 1 });
            },
        };
        let remaining_time_s = read_le(raw, 1, 2);
        let unix_timestamp = read_le(raw, 3, 8);
        proof {
            lemma_pow256_values();
            lemma_le_value_bound(raw@.subrange(1, 3));
            lemma_le_bytes_of_value(raw@.subrange(1, 3));
            lemma_le_bytes_of_value(raw@.subrange(3, 11));
        }
        let m = GameStatus {
            game_type,
            game_progress,
            remaining_time_s: remaining_time_s as u16,
            unix_timestamp,
        };
        assert(m.spec_payload() =~= raw@.take(11));
        proof {
            Self::lemma_unmarshal_layout(raw@, Ok(m));
        }
        Ok(m)
    }
}

} // verus!
