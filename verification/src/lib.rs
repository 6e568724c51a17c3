//! A framing layer for the RoboMaster referee system and vision links, with
//! the messages that travel over it.
//!
//! - [`Messager`] packs typed messages into checksummed frames and unpacks
//!   frames from raw bytes; [`RawFrame`] is a checked, undecoded frame.
//! - [`Marshaler`] (and its halves [`ImplMarshal`], [`ImplUnMarshal`],
//!   [`ImplCommandMsg`]) says how a payload type becomes bytes and back.
//! - [`Validator`] gives the checksums; [`DjiValidator`] uses the DJI CRC-8
//!   and CRC-16 ([`calc_dji8`], [`calc_dji16`]).
//! - [`RemoteControl`] decodes the 21-byte remote-control uplink frame;
//!   [`SharedRemoteControl`] publishes it through atomics.
//! - [`serial`] holds the referee system messages and [`vision`] the custom
//!   controller message.
//!
//! Frame layout: `SOF (0xA5) | LEN (u16 LE) | SEQ | CRC8 | CMD_ID (u16 LE) |
//! DATA (LEN bytes) | CRC16 (u16 LE)`; CRC8 covers the first four bytes,
//! CRC16 everything before it.

pub mod crc;
pub mod error;
pub mod frame;
pub mod le;
pub mod marshaler;
pub mod remote;
pub mod serial;
pub mod shared;
pub mod validator;
pub mod vision;

pub use crc::{calc_dji16, calc_dji8};
pub use error::{MarshalerError, PackError, UnPackError};
pub use frame::{Messager, RawFrame};
pub use marshaler::{ImplCommandMsg, ImplMarshal, ImplUnMarshal, Marshaler};
pub use remote::{RemoteControl, Switch};
pub use shared::SharedRemoteControl;
pub use validator::{DjiValidator, Validator};
