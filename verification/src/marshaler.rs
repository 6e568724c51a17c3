//! How typed payloads become bytes and bytes become typed payloads.

use vstd::prelude::*;
use crate::error::MarshalerError;

verus! {

/// A payload type: its command ID and payload size, how it is written into
/// bytes and how it is read from them.
///
/// `marshals_to` and `unmarshals_to` say what an implementation promises of
/// its results; by default they promise nothing.
pub trait Marshaler: Sized {
    /// Command ID of this payload type.
    const CMD_ID: u16;
    /// Size of the payload in bytes.
    const PAYLOAD_SIZE: u16;

    /// Marshaling this value may write `payload` and return `r`.
    open spec fn marshals_to(&self, payload: Seq<u8>, r: Result<usize, MarshalerError>) -> bool {
        true
    }

    /// `r` is what unmarshaling the payload bytes `raw` gives.
    open spec fn unmarshals_to(raw: Seq<u8>, r: Result<Self, MarshalerError>) -> bool {
        true
    }

    /// Writes the payload at the start of `dst` and returns the number of bytes written.
    fn marshal(&self, dst: &mut [u8]) -> (r: Result<usize, MarshalerError>)
        requires
            old(dst)@.len() >= Self::PAYLOAD_SIZE,
        ensures
            final(dst)@.len() == old(dst)@.len(),
            self.marshals_to(final(dst)@.take(Self::PAYLOAD_SIZE as int), r),
    ;

    /// Reads a payload from the start of `raw`, which holds the payload bytes only.
    fn unmarshal(raw: &[u8]) -> (r: Result<Self, MarshalerError>)
        requires
            raw@.len() >= Self::PAYLOAD_SIZE,
        ensures
            Self::unmarshals_to(raw@, r),
    ;
}

/// The command ID and payload size of a payload type.
pub trait ImplCommandMsg: Sized {
    /// See [`Marshaler::CMD_ID`].
    const CMD_ID: u16;
    /// See [`Marshaler::PAYLOAD_SIZE`].
    const PAYLOAD_SIZE: u16;
}

impl<T: Marshaler> ImplCommandMsg for T {
    const CMD_ID: u16 = <T as Marshaler>::CMD_ID;
    const PAYLOAD_SIZE: u16 = <T as Marshaler>::PAYLOAD_SIZE;
}

/// A payload type's command ID and payload size are those of its [`Marshaler`] impl.
pub proof fn lemma_command_msg_of<T: Marshaler>()
    ensures
        <T as ImplCommandMsg>::CMD_ID == <T as Marshaler>::CMD_ID,
        <T as ImplCommandMsg>::PAYLOAD_SIZE == <T as Marshaler>::PAYLOAD_SIZE,
{
}

/// The writing half of [`Marshaler`], for encode-only types.
pub trait ImplMarshal: ImplCommandMsg {
    /// See [`Marshaler::marshals_to`].
    open spec fn marshals_to(&self, payload: Seq<u8>, r: Result<usize, MarshalerError>) -> bool {
        true
    }

    /// See [`Marshaler::marshal`].
    fn marshal(&self, dst: &mut [u8]) -> (r: Result<usize, MarshalerError>)
        requires
            old(dst)@.len() >= Self::PAYLOAD_SIZE,
        ensures
            final(dst)@.len() == old(dst)@.len(),
            self.marshals_to(final(dst)@.take(Self::PAYLOAD_SIZE as int), r),
    ;
}

impl<T: Marshaler> ImplMarshal for T {
    open spec fn marshals_to(&self, payload: Seq<u8>, r: Result<usize, MarshalerError>) -> bool {
        <T as Marshaler>::marshals_to(self, payload, r)
    }

    fn marshal(&self, dst: &mut [u8]) -> (r: Result<usize, MarshalerError>) {
        <T as Marshaler>::marshal(self, dst)
    }
}

/// The reading half of [`Marshaler`], for decode-only types.
pub trait ImplUnMarshal: ImplCommandMsg {
    /// See [`Marshaler::unmarshals_to`].
    open spec fn unmarshals_to(raw: Seq<u8>, r: Result<Self, MarshalerError>) -> bool {
        true
    }

    /// `raw`, though shorter than the payload size, holds every byte that
    /// unmarshaling reads; by default no shorter input does.
    open spec fn admits_short(raw: Seq<u8>) -> bool {
        false
    }

    /// See [`Marshaler::unmarshal`]; a type may also accept the shorter
    /// inputs that `admits_short` names.
    fn unmarshal(raw: &[u8]) -> (r: Result<Self, MarshalerError>)
        requires
            raw@.len() >= Self::PAYLOAD_SIZE || Self::admits_short(raw@),
        ensures
            Self::unmarshals_to(raw@, r),
    ;
}

impl<T: Marshaler> ImplUnMarshal for T {
    open spec fn unmarshals_to(raw: Seq<u8>, r: Result<Self, MarshalerError>) -> bool {
        <T as Marshaler>::unmarshals_to(raw, r)
    }

    open spec fn admits_short(raw: Seq<u8>) -> bool {
        false
    }

    fn unmarshal(raw: &[u8]) -> (r: Result<Self, MarshalerError>) {
        <T as Marshaler>::unmarshal(raw)
    }
}

} // verus!
