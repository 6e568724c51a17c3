//! Decoder of the 21-byte VT03/VT13 uplink control frame (remote controller,
//! mouse and keyboard).
//!
//! ```text
//! bytes  0..2   SOF 0xA953 (little-endian bytes A9 53)
//! bytes  2..10  data group 1 (u64, little-endian)
//! bytes 10..17  data group 2 (7 bytes, little-endian, read as u64)
//! bytes 17..19  keyboard bitmask (u16, little-endian)
//! bytes 19..21  CRC16 over bytes 0..19 (little-endian)
//! ```
//!
//! Data group 1: bits 0..=10 right horizontal, 11..=21 right vertical,
//! 22..=32 left vertical, 33..=43 left horizontal (11-bit channels centred at
//! 1024), 44..=45 switch, 46 pause, 47 left function key, 48 right function
//! key, 49..=59 wheel (11-bit, centred at 1024), 60 trigger.
//!
//! Data group 2: bits 0..=15 mouse x, 16..=31 mouse y, 32..=47 mouse z (i16
//! each), 48..=49 left button, 50..=51 right button, 52..=53 middle button
//! (pressed when non-zero).

use core::marker::PhantomData;
use vstd::prelude::*;
use crate::error::UnPackError;
use crate::le::{le_value, lemma_le_value_8, lemma_le_value_bound, lemma_pow256_values, read_le};
use crate::validator::{DjiValidator, Validator};

verus! {

/// Start-of-frame marker of the control frame.
pub const RC_SOF: u16 = 0x53A9;

/// Neutral position of the 11-bit analog channels.
pub const RC_CHANNEL_MID: i16 = 1024;

/// Size of one control frame in bytes.
pub const RC_FRAME_LENGTH: usize = 21;

/// Position of the three-position switch.
#[derive(Debug, Clone, Copy, PartialEq, Eq, Structural)]
pub enum Switch {
    /// Left position.
    C,
    /// Middle position.
    N,
    /// Right position.
    S,
}

/// Value of the 11-bit channel at bit `shift` of `group`, relative to its neutral position.
pub open spec fn channel_value(group: u64, shift: u64) -> int {
    ((group >> shift) & 0x7FF) as int - RC_CHANNEL_MID as int
}

/// The bit at `shift` of `group` is set.
pub open spec fn bit_set(group: u64, shift: u64) -> bool {
    (group >> shift) & 1 != 0
}

/// The 2-bit button field at `shift` of `group` is non-zero.
pub open spec fn button_set(group: u64, shift: u64) -> bool {
    (group >> shift) & 3 != 0
}

/// The key at bit `k` of the keyboard bitmask is pressed.
pub open spec fn key_set(keyboard: u16, k: u16) -> bool {
    keyboard & (1u16 << k) != 0
}

/// What decoding a control frame at the start of `data` returns: the errors
/// for a short input and a wrong start-of-frame marker, and otherwise success
/// (21 bytes) or a checksum error, the first exactly when the tail checksum
/// matches for a validator that obeys its checksum specification.
pub open spec fn update_result<V: Validator>(data: Seq<u8>, r: Result<usize, UnPackError>) -> bool {
    if data.len() < RC_FRAME_LENGTH {
        r == Err::<usize, UnPackError>(UnPackError::UnexpectedEnd { read: data.len() as usize })
    } else if le_value(data.subrange(0, 2)) != RC_SOF {
        r == Err::<usize, UnPackError>(UnPackError::MissingHeader { skip: data.len() as usize })
    } else {
        &&& (r == Ok::<usize, UnPackError>(RC_FRAME_LENGTH) || r == Err::<usize, UnPackError>(
            UnPackError::InvalidChecksum { at: 19 },
        ))
        &&& V::obeys_crc_spec() ==> (r is Ok <==> le_value(data.subrange(19, 21)) == V::spec_crc16(
            data.take(19),
        ))
    }
}

/// State decoded from the last control frame accepted.
#[derive(Debug)]
pub struct RemoteControl<V: Validator = DjiValidator> {
    datagroup1: u64,
    datagroup2: u64,
    keyboard_v: u16,
    _marker: PhantomData<V>,
}

proof fn lemma_and_bound(x: u64, m: u64)
    by (bit_vector)
    ensures
        x & m <= m,
{
}

impl<V: Validator> RemoteControl<V> {
    /// Data group 1 of the last accepted frame.
    pub closed spec fn spec_datagroup1(&self) -> u64 {
        self.datagroup1
    }

    /// Data group 2 of the last accepted frame.
    pub closed spec fn spec_datagroup2(&self) -> u64 {
        self.datagroup2
    }

    /// Keyboard bitmask of the last accepted frame.
    pub closed spec fn spec_keyboard(&self) -> u16 {
        self.keyboard_v
    }

    /// Creates a state with all groups zero.
    pub fn new() -> (r: Self)
        ensures
            r.spec_datagroup1() == 0,
            r.spec_datagroup2() == 0,
            r.spec_keyboard() == 0,
    {
        RemoteControl { datagroup1: 0, datagroup2: 0, keyboard_v: 0, _marker: PhantomData }
    }

    /// Creates a state from raw data groups and keyboard bitmask, as stored
    /// by a holder that shares the state between tasks.
    pub fn from_groups(datagroup1: u64, datagroup2: u64, keyboard: u16) -> (r: Self)
        ensures
            r.spec_datagroup1() == datagroup1,
            r.spec_datagroup2() == datagroup2,
            r.spec_keyboard() == keyboard,
    {
        RemoteControl { datagroup1, datagroup2, keyboard_v: keyboard, _marker: PhantomData }
    }

    /// Returns the raw data groups and keyboard bitmask.
    pub fn groups(&self) -> (r: (u64, u64, u16))
        ensures
            r == (self.spec_datagroup1(), self.spec_datagroup2(), self.spec_keyboard()),
    {
        (self.datagroup1, self.datagroup2, self.keyboard_v)
    }

    /// Decodes one control frame at the start of `data` into the state and
    /// returns the number of bytes it takes (21). On an error the state is
    /// unchanged.
    pub fn update(&mut self, data: &[u8]) -> (r: Result<usize, UnPackError>)
        ensures
            update_result::<V>(data@, r),
            r is Err ==> {
                &&& final(self).spec_datagroup1() == old(self).spec_datagroup1()
                &&& final(self).spec_datagroup2() == old(self).spec_datagroup2()
                &&& final(self).spec_keyboard() == old(self).spec_keyboard()
            },
            r is Ok ==> {
                &&& final(self).spec_datagroup1() == le_value(data@.subrange(2, 10))
                &&& final(self).spec_datagroup2() == le_value(data@.subrange(10, 17))
                &&& final(self).spec_keyboard() == le_value(data@.subrange(17, 19))
            },
    {
        let len = data.len();
        if len < RC_FRAME_LENGTH {
            return Err(UnPackError::UnexpectedEnd { read: len });
        }
        let sof = read_le(data, 0, 2);
        if sof != RC_SOF as u64 {
            return Err(UnPackError::MissingHeader { skip: len });
        }
        let crc = read_le(data, 19, 2);
        let calc = V::calculate_crc16(&data[0..19]);
        if crc != calc as u64 {
            return Err(UnPackError::InvalidChecksum { at: 19 });
        }
        let keyboard = read_le(data, 17, 2);
        proof {
            lemma_le_value_bound(data@.subrange(17, 19));
            lemma_pow256_values();
        }
        self.datagroup1 = read_le(data, 2, 8);
        self.datagroup2 = read_le(data, 10, 7);
        self.keyboard_v = keyboard as u16;
        Ok(RC_FRAME_LENGTH)
    }

    fn channel(&self, group: u64, shift: u64) -> (r: i16)
        requires
            shift < 64,
        ensures
            r as int == channel_value(group, shift),
    {
        let v = (group >> shift) & 0x7FF;
        proof {
            lemma_and_bound(group >> shift, 0x7FF);
        }
        (v as i16) - RC_CHANNEL_MID
    }

    /// Right stick horizontal channel (`ch0`), centred at 0.
    pub fn right_horizontal(&self) -> (r: i16)
        ensures
            r as int == channel_value(self.spec_datagroup1(), 0),
    {
        self.channel(self.datagroup1, 0)
    }

    /// Right stick vertical channel (`ch1`), centred at 0.
    pub fn right_vertical(&self) -> (r: i16)
        ensures
            r as int == channel_value(self.spec_datagroup1(), 11),
    {
        self.channel(self.datagroup1, 11)
    }

    /// Left stick vertical channel (`ch2`), centred at 0.
    pub fn left_vertical(&self) -> (r: i16)
        ensures
            r as int == channel_value(self.spec_datagroup1(), 22),
    {
        self.channel(self.datagroup1, 22)
    }

    /// Left stick horizontal channel (`ch3`), centred at 0.
    pub fn left_horizontal(&self) -> (r: i16)
        ensures
            r as int == channel_value(self.spec_datagroup1(), 33),
    {
        self.channel(self.datagroup1, 33)
    }

    /// Three-position switch (bits 44..=45 of data group 1: 0 = C, 1 = N, 2 = S).
    pub fn switch(&self) -> (r: Switch)
        requires
            (self.spec_datagroup1() >> 44u64) & 3 != 3,
        ensures
            (self.spec_datagroup1() >> 44u64) & 3 == 0 ==> r == Switch::C,
            (self.spec_datagroup1() >> 44u64) & 3 == 1 ==> r == Switch::N,
            (self.spec_datagroup1() >> 44u64) & 3 == 2 ==> r == Switch::S,
    {
        let bits = (self.datagroup1 >> 44u64) & 3;
        proof {
            lemma_and_bound(self.datagroup1 >> 44u64, 3);
        }
        if bits == 0 {
            Switch::C
        } else if bits == 1 {
            Switch::N
        } else {
            Switch::S
        }
    }

    /// Pause key, true if pressed.
    pub fn pause(&self) -> (r: bool)
        ensures
            r == bit_set(self.spec_datagroup1(), 46),
    {
        (self.datagroup1 >> 46u64) & 1 != 0
    }

    /// Left function key, true if pressed.
    pub fn left_fn(&self) -> (r: bool)
        ensures
            r == bit_set(self.spec_datagroup1(), 47),
    {
        (self.datagroup1 >> 47u64) & 1 != 0
    }

    /// Right function key, true if pressed.
    pub fn right_fn(&self) -> (r: bool)
        ensures
            r == bit_set(self.spec_datagroup1(), 48),
    {
        (self.datagroup1 >> 48u64) & 1 != 0
    }

    /// Wheel channel, centred at 0.
    pub fn wheel(&self) -> (r: i16)
        ensures
            r as int == channel_value(self.spec_datagroup1(), 49),
    {
        self.channel(self.datagroup1, 49)
    }

    /// Trigger, true if pressed.
    pub fn trigger(&self) -> (r: bool)
        ensures
            r == bit_set(self.spec_datagroup1(), 60),
    {
        (self.datagroup1 >> 60u64) & 1 != 0
    }

    /// Mouse x delta: bits 0..=15 of data group 2 as an `i16`.
    pub fn mouse_vx(&self) -> (r: i16)
        ensures
            r == (self.spec_datagroup2() & 0xFFFF) as i16,
    {
        (self.datagroup2 & 0xFFFF) as i16
    }

    /// Mouse y delta: bits 16..=31 of data group 2 as an `i16`.
    pub fn mouse_vy(&self) -> (r: i16)
        ensures
            r == ((self.spec_datagroup2() >> 16u64) & 0xFFFF) as i16,
    {
        ((self.datagroup2 >> 16u64) & 0xFFFF) as i16
    }

    /// Mouse wheel delta: bits 32..=47 of data group 2 as an `i16`.
    pub fn mouse_vz(&self) -> (r: i16)
        ensures
            r == ((self.spec_datagroup2() >> 32u64) & 0xFFFF) as i16,
    {
        ((self.datagroup2 >> 32u64) & 0xFFFF) as i16
    }

    /// Left mouse button, true if pressed.
    pub fn left_button(&self) -> (r: bool)
        ensures
            r == button_set(self.spec_datagroup2(), 48),
    {
        (self.datagroup2 >> 48u64) & 3 != 0
    }

    /// Right mouse button, true if pressed.
    pub fn right_button(&self) -> (r: bool)
        ensures
            r == button_set(self.spec_datagroup2(), 50),
    {
        (self.datagroup2 >> 50u64) & 3 != 0
    }

    /// Middle mouse button, true if pressed.
    pub fn mid_button(&self) -> (r: bool)
        ensures
            r == button_set(self.spec_datagroup2(), 52),
    {
        (self.datagroup2 >> 52u64) & 3 != 0
    }

    fn key(&self, k: u16) -> (r: bool)
        requires
            k < 16,
        ensures
            r == key_set(self.spec_keyboard(), k),
    {
        self.keyboard_v & (1u16 << k) != 0
    }

    /// Keyboard `W`, true if pressed.
    pub fn keyboard_w(&self) -> (r: bool)
        ensures
            r == key_set(self.spec_keyboard(), 0),
    {
        self.key(0)
    }

    /// Keyboard `S`, true if pressed.
    pub fn keyboard_s(&self) -> (r: bool)
        ensures
            r == key_set(self.spec_keyboard(), 1),
    {
        self.key(1)
    }

    /// Keyboard `A`, true if pressed.
    pub fn keyboard_a(&self) -> (r: bool)
        ensures
            r == key_set(self.spec_keyboard(), 2),
    {
        self.key(2)
    }

    /// Keyboard `D`, true if pressed.
    pub fn keyboard_d(&self) -> (r: bool)
        ensures
            r == key_set(self.spec_keyboard(), 3),
    {
        self.key(3)
    }

    /// Keyboard `Shift`, true if pressed.
    pub fn keyboard_shift(&self) -> (r: bool)
        ensures
            r == key_set(self.spec_keyboard(), 4),
    {
        self.key(4)
    }

    /// Keyboard `Ctrl`, true if pressed.
    pub fn keyboard_ctrl(&self) -> (r: bool)
        ensures
            r == key_set(self.spec_keyboard(), 5),
    {
        self.key(5)
    }

    /// Keyboard `Q`, true if pressed.
    pub fn keyboard_q(&self) -> (r: bool)
        ensures
            r == key_set(self.spec_keyboard(), 6),
    {
        self.key(6)
    }

    /// Keyboard `E`, true if pressed.
    pub fn keyboard_e(&self) -> (r: bool)
        ensures
            r == key_set(self.spec_keyboard(), 7),
    {
        self.key(7)
    }

    /// Keyboard `R`, true if pressed.
    pub fn keyboard_r(&self) -> (r: bool)
        ensures
            r == key_set(self.spec_keyboard(), 8),
    {
        self.key(8)
    }

    /// Keyboard `F`, true if pressed.
    pub fn keyboard_f(&self) -> (r: bool)
        ensures
            r == key_set(self.spec_keyboard(), 9),
    {
        self.key(9)
    }

    /// Keyboard `G`, true if pressed.
    pub fn keyboard_g(&self) -> (r: bool)
        ensures
            r == key_set(self.spec_keyboard(), 10),
    {
        self.key(10)
    }

    /// Keyboard `Z`, true if pressed.
    pub fn keyboard_z(&self) -> (r: bool)
        ensures
            r == key_set(self.spec_keyboard(), 11),
    {
        self.key(11)
    }

    /// Keyboard `X`, true if pressed.
    pub fn keyboard_x(&self) -> (r: bool)
        ensures
            r == key_set(self.spec_keyboard(), 12),
    {
        self.key(12)
    }

    /// Keyboard `C`, true if pressed.
    pub fn keyboard_c(&self) -> (r: bool)
        ensures
            r == key_set(self.spec_keyboard(), 13),
    {
        self.key(13)
    }

    /// Keyboard `V`, true if pressed.
    pub fn keyboard_v(&self) -> (r: bool)
        ensures
            r == key_set(self.spec_keyboard(), 14),
    {
        self.key(14)
    }

    /// Keyboard `B`, true if pressed.
    pub fn keyboard_b(&self) -> (r: bool)
        ensures
            r == key_set(self.spec_keyboard(), 15),
    {
        self.key(15)
    }
}

impl<V: Validator> Clone for RemoteControl<V> {
    fn clone(&self) -> (r: Self)
        ensures
            r.spec_datagroup1() == self.spec_datagroup1(),
            r.spec_datagroup2() == self.spec_datagroup2(),
            r.spec_keyboard() == self.spec_keyboard(),
    {
        RemoteControl {
            datagroup1: self.datagroup1,
            datagroup2: self.datagroup2,
            keyboard_v: self.keyboard_v,
            _marker: PhantomData,
        }
    }
}

impl<V: Validator> Default for RemoteControl<V> {
    fn default() -> (r: Self)
        ensures
            r.spec_datagroup1() == 0,
            r.spec_datagroup2() == 0,
            r.spec_keyboard() == 0,
    {
        Self::new()
    }
}


proof fn lemma_key_bits(b0: u8, b1: u8, k: u16)
    by (bit_vector)
    requires
        k < 16,
    ensures
        ((b0 as u16 | (b1 as u16) << 8) & (1u16 << k) != 0) == if k < 8 {
            b0 & (1u8 << k) != 0
        } else {
            b1 & (1u8 << ((k - 8) as u16)) != 0
        },
{
}

proof fn lemma_two_bytes(b0: u8, b1: u8)
    by (bit_vector)
    ensures
        (b0 as u16 | (b1 as u16) << 8) == b0 as u16 + 256 * b1 as u16,
{
}

/// Key `k` of the keyboard bitmask that an accepted frame carries in bytes
/// 17..19 is bit `k % 8` of byte `17 + k / 8`.
pub proof fn lemma_keyboard_bytes(data: Seq<u8>, k: u16)
    requires
        data.len() >= RC_FRAME_LENGTH,
        k < 16,
    ensures
        key_set(le_value(data.subrange(17, 19)) as u16, k) == if k < 8 {
            data[17] & (1u8 << k) != 0
        } else {
            data[18] & (1u8 << ((k - 8) as u16)) != 0
        },
{
    let s = data.subrange(17, 19);
    reveal_with_fuel(le_value, 3);
    assert(s.drop_first().drop_first().len() == 0);
    assert(le_value(s) == data[17] as nat + 256 * data[18] as nat);
    lemma_two_bytes(data[17], data[18]);
    lemma_key_bits(data[17], data[18], k);
}


proof fn lemma_seven_bytes(b0: u64, b1: u64, b2: u64, b3: u64, b4: u64, b5: u64, b6: u64)
    by (bit_vector)
    requires
        b0 < 256,
        b1 < 256,
        b2 < 256,
        b3 < 256,
        b4 < 256,
        b5 < 256,
        b6 < 256,
    ensures
        ({
            let x = (b0 + 256 * b1 + 0x1_0000 * b2 + 0x100_0000 * b3 + 0x1_0000_0000 * b4
                + 0x100_0000_0000 * b5 + 0x1_0000_0000_0000 * b6) as u64;
            &&& x & 0xFFFF == b0 + 256 * b1
            &&& (x >> 16u64) & 0xFFFF == b2 + 256 * b3
            &&& (x >> 32u64) & 0xFFFF == b4 + 256 * b5
        }),
{
}

/// The mouse deltas of an accepted frame are the little-endian `i16`s in
/// bytes 10..12, 12..14 and 14..16.
pub proof fn lemma_mouse_bytes(data: Seq<u8>)
    requires
        data.len() >= RC_FRAME_LENGTH,
    ensures
        ({
            let group = le_value(data.subrange(10, 17)) as u64;
            &&& (group & 0xFFFF) as i16 == (data[10] + 256 * data[11]) as u16 as i16
            &&& ((group >> 16u64) & 0xFFFF) as i16 == (data[12] + 256 * data[13]) as u16 as i16
            &&& ((group >> 32u64) & 0xFFFF) as i16 == (data[14] + 256 * data[15]) as u16 as i16
        }),
{
    let s = data.subrange(10, 17);
    reveal_with_fuel(le_value, 8);
    assert(s.drop_first().drop_first().drop_first().drop_first().drop_first().drop_first().drop_first().len() == 0);
    assert(le_value(s) == data[10] + 256 * data[11] + 0x1_0000 * data[12] + 0x100_0000 * data[13]
        + 0x1_0000_0000 * data[14] + 0x100_0000_0000 * data[15] + 0x1_0000_0000_0000 * data[16]);
    lemma_seven_bytes(
        data[10] as u64,
        data[11] as u64,
        data[12] as u64,
        data[13] as u64,
        data[14] as u64,
        data[15] as u64,
        data[16] as u64,
    );
}


proof fn lemma_eight_bytes(b0: u64, b1: u64, b2: u64, b3: u64, b4: u64, b5: u64, b6: u64, b7: u64)
    by (bit_vector)
    requires
        b0 < 256,
        b1 < 256,
        b2 < 256,
        b3 < 256,
        b4 < 256,
        b5 < 256,
        b6 < 256,
        b7 < 256,
    ensures
        ({
            let x = (b0 + 256 * b1 + 0x1_0000 * b2 + 0x100_0000 * b3 + 0x1_0000_0000 * b4
                + 0x100_0000_0000 * b5 + 0x1_0000_0000_0000 * b6 + 0x100_0000_0000_0000 * b7) as u64;
            &&& (x >> 0u64) & 0x7FF == (b0 + 256 * b1) % 2048
            &&& (x >> 11u64) & 0x7FF == (b1 + 256 * b2) / 8 % 2048
            &&& (x >> 22u64) & 0x7FF == (b2 + 256 * b3 + 0x1_0000 * b4) / 64 % 2048
            &&& (x >> 33u64) & 0x7FF == (b4 + 256 * b5) / 2 % 2048
            &&& (x >> 44u64) & 3 == b5 / 16 % 4
            &&& (x >> 46u64) & 1 == b5 / 64 % 2
            &&& (x >> 47u64) & 1 == b5 / 128
            &&& (x >> 48u64) & 1 == b6 % 2
            &&& (x >> 49u64) & 0x7FF == (b6 + 256 * b7) / 2 % 2048
            &&& (x >> 60u64) & 1 == b7 / 16 % 2
        }),
{
}

/// The channels, switch and keys of an accepted frame, read from its bytes:
/// right horizontal from the low 11 bits of bytes 2 and 3, right vertical
/// from bits 3 to 13 of bytes 3 and 4, left vertical from bits 6 to 16 of
/// bytes 4 to 6, left horizontal from bits 1 to 11 of bytes 6 and 7, the
/// switch from bits 4 and 5 of byte 7, pause and the left function key from
/// its bits 6 and 7, the right function key from bit 0 of byte 8, the wheel
/// from bits 1 to 11 of bytes 8 and 9 and the trigger from bit 4 of byte 9;
/// each channel is centred by subtracting 1024.
pub proof fn lemma_group1_bytes(data: Seq<u8>)
    requires
        data.len() >= RC_FRAME_LENGTH,
    ensures
        ({
            let g = le_value(data.subrange(2, 10)) as u64;
            &&& channel_value(g, 0) == (data[2] + 256 * data[3]) % 2048 - 1024
            &&& channel_value(g, 11) == (data[3] + 256 * data[4]) / 8 % 2048 - 1024
            &&& channel_value(g, 22) == (data[4] + 256 * data[5] + 0x1_0000 * data[6]) / 64 % 2048
                - 1024
            &&& channel_value(g, 33) == (data[6] + 256 * data[7]) / 2 % 2048 - 1024
            &&& (g >> 44u64) & 3 == data[7] / 16 % 4
            &&& bit_set(g, 46) == (data[7] / 64 % 2 == 1)
            &&& bit_set(g, 47) == (data[7] / 128 == 1)
            &&& bit_set(g, 48) == (data[8] % 2 == 1)
            &&& channel_value(g, 49) == (data[8] + 256 * data[9]) / 2 % 2048 - 1024
            &&& bit_set(g, 60) == (data[9] / 16 % 2 == 1)
        }),
{
    let s = data.subrange(2, 10);
    lemma_le_value_8(s);
    assert(s[0] == data[2] && s[1] == data[3] && s[2] == data[4] && s[3] == data[5]);
    assert(s[4] == data[6] && s[5] == data[7] && s[6] == data[8] && s[7] == data[9]);
    lemma_pow256_values();
    lemma_le_value_bound(s);
    let g = le_value(s) as u64;
    assert(g == (data[2] as u64 + 256 * data[3] as u64 + 0x1_0000 * data[4] as u64 + 0x100_0000
        * data[5] as u64 + 0x1_0000_0000 * data[6] as u64 + 0x100_0000_0000 * data[7] as u64
        + 0x1_0000_0000_0000 * data[8] as u64 + 0x100_0000_0000_0000 * data[9] as u64) as u64);
    lemma_eight_bytes(
        data[2] as u64,
        data[3] as u64,
        data[4] as u64,
        data[5] as u64,
        data[6] as u64,
        data[7] as u64,
        data[8] as u64,
        data[9] as u64,
    );
}

} // verus!
