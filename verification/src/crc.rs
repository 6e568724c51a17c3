//! The DJI checksums: CRC-8 (reflected polynomial `0x31`, initial value `0xFF`)
//! over frame headers and CRC-16 (reflected polynomial `0x1021`, initial value
//! `0xFFFF`) over whole frames. Neither applies a final XOR.

use vstd::prelude::*;

verus! {

/// Initial value of the header checksum.
pub const CRC8_INIT: u8 = 0xFF;

/// Initial value of the frame checksum.
pub const CRC16_INIT: u16 = 0xFFFF;

/// One shift of the reflected CRC-8 register (polynomial `0x31`, reflected `0x8C`).
pub open spec fn crc8_shift(c: u8) -> u8 {
    if c & 1 == 1 {
        (c >> 1) ^ 0x8C
    } else {
        c >> 1
    }
}

/// One shift of the reflected CRC-16 register (polynomial `0x1021`, reflected `0x8408`).
pub open spec fn crc16_shift(c: u16) -> u16 {
    if c & 1 == 1 {
        (c >> 1) ^ 0x8408
    } else {
        c >> 1
    }
}

/// `n` shifts of the CRC-8 register.
pub open spec fn crc8_shifts(c: u8, n: nat) -> u8
    decreases n,
{
    if n == 0 {
        c
    } else {
        crc8_shifts(crc8_shift(c), (n - 1) as nat)
    }
}

/// `n` shifts of the CRC-16 register.
pub open spec fn crc16_shifts(c: u16, n: nat) -> u16
    decreases n,
{
    if n == 0 {
        c
    } else {
        crc16_shifts(crc16_shift(c), (n - 1) as nat)
    }
}

/// The CRC-8 register after it took in the byte `b`.
pub open spec fn crc8_byte(c: u8, b: u8) -> u8 {
    crc8_shifts(c ^ b, 8)
}

/// The CRC-16 register after it took in the byte `b`.
pub open spec fn crc16_byte(c: u16, b: u8) -> u16 {
    crc16_shifts(c ^ (b as u16), 8)
}

/// The CRC-8 register, started at `init`, after it took in the bytes of `s` in order.
pub open spec fn crc8_fold(init: u8, s: Seq<u8>) -> u8
    decreases s.len(),
{
    if s.len() == 0 {
        init
    } else {
        crc8_byte(crc8_fold(init, s.drop_last()), s.last())
    }
}

/// The CRC-16 register, started at `init`, after it took in the bytes of `s` in order.
pub open spec fn crc16_fold(init: u16, s: Seq<u8>) -> u16
    decreases s.len(),
{
    if s.len() == 0 {
        init
    } else {
        crc16_byte(crc16_fold(init, s.drop_last()), s.last())
    }
}

/// The DJI header checksum of `s`.
pub open spec fn dji_crc8(s: Seq<u8>) -> u8 {
    crc8_fold(CRC8_INIT, s)
}

/// The DJI frame checksum of `s`.
pub open spec fn dji_crc16(s: Seq<u8>) -> u16 {
    crc16_fold(CRC16_INIT, s)
}

fn crc8_step(c: u8, b: u8) -> (r: u8)
    ensures
        r == crc8_byte(c, b),
{
    let mut reg: u8 = c ^ b;
    let mut k: u8 = 0;
    while k < 8
        invariant
            k <= 8,
            crc8_shifts(reg, (8 - k) as nat) == crc8_byte(c, b),
        decreases 8 - k,
    {
        reg = if reg & 1 == 1 {
            (reg >> 1) ^ 0x8C
        } else {
            reg >> 1
        };
        k = k + 1;
    }
    reg
}

fn crc16_step(c: u16, b: u8) -> (r: u16)
    ensures
        r == crc16_byte(c, b),
{
    let mut reg: u16 = c ^ (b as u16);
    let mut k: u8 = 0;
    while k < 8
        invariant
            k <= 8,
            crc16_shifts(reg, (8 - k) as nat) == crc16_byte(c, b),
        decreases 8 - k,
    {
        reg = if reg & 1 == 1 {
            (reg >> 1) ^ 0x8408
        } else {
            reg >> 1
        };
        k = k + 1;
    }
    reg
}

/// Computes the DJI header checksum (CRC-8) of `data`.
pub fn calc_dji8(data: &[u8]) -> (r: u8)
    ensures
        r == dji_crc8(data@),
{
    let len = data.len();
    let mut crc: u8 = CRC8_INIT;
    let mut i: usize = 0;
    while i < len
        invariant
            len == data@.len(),
            i <= len,
            crc == crc8_fold(CRC8_INIT, data@.take(i as int)),
        decreases len - i,
    {
        proof {
            assert(data@.take(i + 1).drop_last() == data@.take(i as int));
        }
        crc = crc8_step(crc, data[i]);
        i = i + 1;
    }
    proof {
        assert(data@.take(len as int) == data@);
    }
    crc
}

/// Computes the DJI frame checksum (CRC-16) of `data`.
pub fn calc_dji16(data: &[u8]) -> (r: u16)
    ensures
        r == dji_crc16(data@),
{
    let len = data.len();
    let mut crc: u16 = CRC16_INIT;
    let mut i: usize = 0;
    while i < len
        invariant
            len == data@.len(),
            i <= len,
            crc == crc16_fold(CRC16_INIT, data@.take(i as int)),
        decreases len - i,
    {
        proof {
            assert(data@.take(i + 1).drop_last() == data@.take(i as int));
        }
        crc = crc16_step(crc, data[i]);
        i = i + 1;
    }
    proof {
        assert(data@.take(len as int) == data@);
    }
    crc
}

} // verus!
