//! `0x0101` — field events, sent at 1 Hz.

use vstd::prelude::*;
use crate::error::MarshalerError;
use crate::le::{le_bytes, lemma_le_bytes_len, lemma_le_field, lemma_le_bytes_of_value, lemma_le_value_bound, lemma_le_value_of_bytes, lemma_pow256_values, read_le, splice, write_le};
use crate::marshaler::{lemma_command_msg_of, ImplCommandMsg, Marshaler};

verus! {

/// Field events.
#[derive(Debug, Clone, Copy)]
pub struct GameEvent {
    event_data: u32,
}

impl GameEvent {
    pub closed spec fn spec_event_data(&self) -> u32 {
        self.event_data
    }

    /// The payload bytes of this message.
    pub open spec fn spec_payload(&self) -> Seq<u8> {
        le_bytes(self.event_data() as nat, 4)
    }

    pub fn new(event_data: u32) -> (r: GameEvent)
        ensures
            r.event_data() == event_data,
    {
        GameEvent { event_data }
    }

    /// Event bit field: supply zones, power runes, highlands, the opponent's
    /// last dart hit and its time, buff points (bits 30..=31 reserved).
    #[verifier::when_used_as_spec(spec_event_data)]
    pub fn event_data(&self) -> (r: u32)
        ensures
            r == self.spec_event_data(),
    {
        self.event_data
    }

    /// Two messages with the same payload bytes are the same message, so
    /// unmarshaling what marshaling writes gives the message back.
    pub proof fn lemma_payload_injective(a: GameEvent, b: GameEvent)
        requires
            a.spec_payload() == b.spec_payload(),
        ensures
            a == b,
    {
        lemma_pow256_values();
        lemma_le_value_of_bytes(a.event_data as nat, 4);
        lemma_le_value_of_bytes(b.event_data as nat, 4);
    }

    /// Wire layout: the payload is the four bytes of the event bit field,
    /// least significant byte first.
    pub proof fn lemma_payload_layout(m: GameEvent)
        ensures
            m.spec_payload().len() == 4,
            m.event_data() == m.spec_payload()[0] + 0x100 * m.spec_payload()[1] + 0x1_0000 * m.spec_payload()[2] + 0x100_0000 * m.spec_payload()[3],
    {
        lemma_pow256_values();
        let p = m.spec_payload();
        lemma_le_bytes_len(m.event_data as nat, 4);
        assert(p.subrange(0, 4) == le_bytes(m.event_data as nat, 4));
        lemma_le_field(p, 0, m.event_data as nat, 4);
    }

    /// Marshaling writes the event bit field at bytes 0 to 3, least
    /// significant byte first.
    pub proof fn lemma_marshal_layout(m: GameEvent, payload: Seq<u8>, r: Result<usize, MarshalerError>)
        requires
            <GameEvent as Marshaler>::marshals_to(&m, payload, r),
        ensures
            r == Ok::<usize, MarshalerError>(4),
            payload.len() == 4,
            m.event_data() == payload[0] + 0x100 * payload[1] + 0x1_0000 * payload[2] + 0x100_0000 * payload[3],
    {
        Self::lemma_payload_layout(m);
    }

    /// Unmarshaling four payload bytes always succeeds and reads the event bit
    /// field from bytes 0 to 3, least significant byte first.
    pub proof fn lemma_unmarshal_layout(raw: Seq<u8>, r: Result<GameEvent, MarshalerError>)
        requires
            raw.len() >= 4,
            <GameEvent as Marshaler>::unmarshals_to(raw, r),
        ensures
            r is Ok,
            r->Ok_0.event_data() == raw[0] + 0x100 * raw[1] + 0x1_0000 * raw[2] + 0x100_0000 * raw[3],
    {
        let m = r->Ok_0;
        Self::lemma_payload_layout(m);
        assert(m.spec_payload() == raw.take(4));
    }

    /// The command ID and payload size of this message.
    pub proof fn lemma_command_msg()
        ensures
            <GameEvent as Marshaler>::CMD_ID == 0x0101,
            <GameEvent as Marshaler>::PAYLOAD_SIZE == 4,
            <GameEvent as ImplCommandMsg>::CMD_ID == 0x0101,
            <GameEvent as ImplCommandMsg>::PAYLOAD_SIZE == 4,
    {
        lemma_command_msg_of::<GameEvent>();
    }

    /// Unmarshaling what marshaling writes gives the message back.
    pub proof fn lemma_roundtrip(m: GameEvent, payload: Seq<u8>, r: Result<GameEvent, MarshalerError>)
        requires
            <GameEvent as Marshaler>::marshals_to(&m, payload, Ok(4)),
            <GameEvent as Marshaler>::unmarshals_to(payload, r),
        ensures
            r == Ok::<GameEvent, MarshalerError>(m),
    {
        lemma_le_bytes_len(m.event_data as nat, 4);
        let m2 = r->Ok_0;
        assert(payload.take(4) =~= payload);
        Self::lemma_payload_injective(m, m2);
    }
}

impl Marshaler for GameEvent {
    const CMD_ID: u16 = 0x0101;
    const PAYLOAD_SIZE: u16 = 4;

    open spec fn marshals_to(&self, payload: Seq<u8>, r: Result<usize, MarshalerError>) -> bool {
        r == Ok::<usize, MarshalerError>(4) && payload == self.spec_payload()
    }

    open spec fn unmarshals_to(raw: Seq<u8>, r: Result<Self, MarshalerError>) -> bool {
        r matches Ok(m) && m.spec_payload() == raw.take(4)
    }

    fn marshal(&self, dst: &mut [u8]) -> (r: Result<usize, MarshalerError>)
        ensures
            r == Ok::<usize, MarshalerError>(4),
            final(dst)@ == splice(old(dst)@, 0, self.spec_payload()),
    {
        proof {
            lemma_le_bytes_len(self.event_data as nat, 4);
        }
        write_le(dst, 0, self.event_data as u64, 4);
        assert(dst@.take(4) =~= self.spec_payload());
        Ok(4)
    }

    fn unmarshal(raw: &[u8]) -> (r: Result<Self, MarshalerError>)
        ensures
            r is Ok,
            r->Ok_0.event_data() == raw@[0] + 0x100 * raw@[1] + 0x1_0000 * raw@[2] + 0x100_0000 * raw@[3],
    {
        let event_data = read_le(raw, 0, 4);
        proof {
            lemma_pow256_values();
            lemma_le_value_bound(raw@.subrange(0, 4));
            lemma_le_bytes_of_value(raw@.subrange(0, 4));
        }
        let m = GameEvent { event_data: event_data as u32 };
        assert(m.spec_payload() =~= raw@.take(4));
        proof {
            Self::lemma_unmarshal_layout(raw@, Ok(m));
        }
        Ok(m)
    }
}

} // verus!
