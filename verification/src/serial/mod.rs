//! Referee system serial protocol messages.
//!
//! | CMD_ID   | Module      | Type                        |
//! |----------|-------------|-----------------------------|
//! | `0x0001` | [`states`]  | [`states::GameStatus`]      |
//! | `0x0002` | [`result`]  | [`result::GameResult`]      |
//! | `0x0003` | [`health`]  | [`health::GameRobotHP`]     |
//! | `0x0101` | [`event`]   | [`event::GameEvent`]        |
//! | `0x0104` | [`warning`] | [`warning::RefereeWarning`] |
//! | `0x0105` | [`dart`]    | [`dart::DartInfo`]          |
//! | `0x0203` | [`pos`]     | [`pos::RobotPos`]           |
//! | `0x0204` | [`buff`]    | [`buff::RobotBuff`]         |
//! | `0x0206` | [`hurt`]    | [`hurt::HurtData`]          |

pub mod buff;
pub mod dart;
pub mod event;
pub mod health;
pub mod hurt;
pub mod pos;
pub mod result;
pub mod states;
pub mod warning;

use vstd::prelude::*;

verus! {

/// The low and high nibbles of a byte.
pub(crate) proof fn lemma_nibbles(x: u8)
    by (bit_vector)
    ensures
        x & 0xF == x % 16,
        (x >> 4) & 0xF == x / 16,
{
}

/// Two nibbles joined into a byte.
pub(crate) proof fn lemma_join_nibbles(lo: u8, hi: u8)
    by (bit_vector)
    ensures
        (lo & 0xF) | ((hi & 0xF) << 4) == (lo % 16) + 16 * (hi % 16),
{
}

} // verus!
