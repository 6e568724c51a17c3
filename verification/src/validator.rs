//! Checksums that guard frames.

use vstd::prelude::*;
use crate::crc::{calc_dji16, calc_dji8, dji_crc16, dji_crc8};

verus! {

/// The checksums of the frame protocol: CRC-8 over a frame header and CRC-16
/// over a whole frame.
///
/// An implementation that sets `obeys_crc_spec` promises that its
/// calculations give `spec_crc8` and `spec_crc16`; by default it promises
/// nothing.
pub trait Validator {
    /// The calculations give `spec_crc8` and `spec_crc16`.
    open spec fn obeys_crc_spec() -> bool {
        false
    }

    /// The header checksum of `raw`.
    open spec fn spec_crc8(raw: Seq<u8>) -> u8 {
        0
    }

    /// The frame checksum of `raw`.
    open spec fn spec_crc16(raw: Seq<u8>) -> u16 {
        0
    }

    /// Calculates the header checksum of `raw`.
    fn calculate_crc8(raw: &[u8]) -> (r: u8)
        ensures
            Self::obeys_crc_spec() ==> r == Self::spec_crc8(raw@),
    ;

    /// Calculates the frame checksum of `raw`.
    fn calculate_crc16(raw: &[u8]) -> (r: u16)
        ensures
            Self::obeys_crc_spec() ==> r == Self::spec_crc16(raw@),
    ;
}

/// The DJI checksums: CRC-8 and CRC-16 as the RoboMaster protocol defines them.
pub struct DjiValidator;

impl Validator for DjiValidator {
    open spec fn obeys_crc_spec() -> bool {
        true
    }

    open spec fn spec_crc8(raw: Seq<u8>) -> u8 {
        dji_crc8(raw)
    }

    open spec fn spec_crc16(raw: Seq<u8>) -> u16 {
        dji_crc16(raw)
    }

    fn calculate_crc8(raw: &[u8]) -> (r: u8) {
        calc_dji8(raw)
    }

    fn calculate_crc16(raw: &[u8]) -> (r: u16) {
        calc_dji16(raw)
    }
}

} // verus!
