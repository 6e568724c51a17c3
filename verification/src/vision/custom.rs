//! `0x0302` — custom controller to robot, at most 30 Hz.
//!
//! The payload carries six joint angles (`f32`) and the gripper state; this
//! type holds the joint angles as their IEEE-754 bit patterns (`f32::to_bits`).

use vstd::prelude::*;
use crate::error::MarshalerError;
use crate::le::{le_value, lemma_le_value_4, lemma_le_value_bound, lemma_pow256_values, read_le};
use crate::marshaler::{ImplCommandMsg, ImplUnMarshal};

verus! {

/// Custom controller command: six joint angles and the gripper state.
#[derive(Debug)]
pub struct Custom2Robot {
    joints: [u32; 6],
    gripper: bool,
}

/// The bit pattern of joint `i` in the payload `raw`.
pub open spec fn joint_bits_at(raw: Seq<u8>, i: int) -> u32 {
    le_value(raw.subrange(4 * i, 4 * i + 4)) as u32
}

impl Custom2Robot {
    pub closed spec fn spec_joint_bits(&self) -> Seq<u32> {
        self.joints@
    }

    pub closed spec fn spec_gripper(&self) -> bool {
        self.gripper
    }

    /// Bit patterns of the six joint angles.
    pub fn joint_bits(&self) -> (r: [u32; 6])
        ensures
            r@ == self.spec_joint_bits(),
    {
        self.joints
    }

    /// Gripper state, true if closed.
    #[verifier::when_used_as_spec(spec_gripper)]
    pub fn get_gripper(&self) -> (r: bool)
        ensures
            r == self.spec_gripper(),
    {
        self.gripper
    }
}

impl Custom2Robot {
    /// Wire layout: unmarshaling reads joint `i` from bytes `4 * i` to
    /// `4 * i + 3`, least significant byte first, and the gripper from byte
    /// 24, closed when it is not 0.
    pub proof fn lemma_unmarshal_layout(raw: Seq<u8>, r: Result<Custom2Robot, MarshalerError>)
        requires
            raw.len() >= 25,
            <Custom2Robot as ImplUnMarshal>::unmarshals_to(raw, r),
        ensures
            r is Ok,
            r->Ok_0.spec_joint_bits().len() == 6,
            forall|i: int|
                0 <= i < 6 ==> #[trigger] r->Ok_0.spec_joint_bits()[i] == raw[4 * i] + 0x100 * raw[4
                    * i + 1] + 0x1_0000 * raw[4 * i + 2] + 0x100_0000 * raw[4 * i + 3],
            r->Ok_0.get_gripper() == (raw[24] != 0),
    {
        let m = r->Ok_0;
        lemma_pow256_values();
        assert forall|i: int| 0 <= i < 6 implies #[trigger] m.spec_joint_bits()[i] == raw[4 * i]
            + 0x100 * raw[4 * i + 1] + 0x1_0000 * raw[4 * i + 2] + 0x100_0000 * raw[4 * i + 3] by {
            let sub = raw.subrange(4 * i, 4 * i + 4);
            lemma_le_value_4(sub);
            lemma_le_value_bound(sub);
            assert(m.spec_joint_bits()[i] == joint_bits_at(raw, i));
            assert(sub[0] == raw[4 * i] && sub[1] == raw[4 * i + 1] && sub[2] == raw[4 * i + 2]
                && sub[3] == raw[4 * i + 3]);
        }
    }

    /// The command ID and payload size of this message.
    pub proof fn lemma_command_msg()
        ensures
            <Custom2Robot as ImplCommandMsg>::CMD_ID == 0x0302,
            <Custom2Robot as ImplCommandMsg>::PAYLOAD_SIZE == 30,
    {
    }
}

impl ImplCommandMsg for Custom2Robot {
    const CMD_ID: u16 = 0x0302;
    const PAYLOAD_SIZE: u16 = 30;
}

impl ImplUnMarshal for Custom2Robot {
    open spec fn unmarshals_to(raw: Seq<u8>, r: Result<Self, MarshalerError>) -> bool {
        r matches Ok(m) && m.spec_joint_bits().len() == 6 && (forall|i: int|
            0 <= i < 6 ==> #[trigger] m.spec_joint_bits()[i] == joint_bits_at(raw, i))
            && m.get_gripper() == (raw[24] != 0)
    }

    /// The joints and the gripper state take the first 25 payload bytes.
    open spec fn admits_short(raw: Seq<u8>) -> bool {
        raw.len() >= 25
    }

    fn unmarshal(raw: &[u8]) -> (r: Result<Self, MarshalerError>) {
        let mut joints: [u32; 6] = [0u32; 6];
        let mut i: usize = 0;
        while i < 6
            invariant
                i <= 6,
                raw@.len() >= 25,
                forall|j: int| 0 <= j < i ==> #[trigger] joints@[j] == joint_bits_at(raw@, j),
            decreases 6 - i,
        {
            let v = read_le(raw, 4 * i, 4);
            proof {
                lemma_pow256_values();
                lemma_le_value_bound(raw@.subrange(4 * i, 4 * i + 4));
            }
            joints[i] = v as u32;
            i = i + 1;
        }
        let gripper = raw[24] != 0;
        Ok(Custom2Robot { joints, gripper })
    }
}

} // verus!
