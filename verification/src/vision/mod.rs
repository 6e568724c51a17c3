//! Vision link messages.

pub mod custom;

pub use custom::Custom2Robot;
