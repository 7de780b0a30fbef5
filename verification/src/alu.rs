//! Arithmetic on register values: the `8XY_` operations with their flags,
//! and the decimal digits of a byte.

use vstd::prelude::*;
use crate::instruction::AluOp;

verus! {

/// The value that an `8XY_` operation leaves in VX, from the values that VX
/// and VY held before it. All arithmetic is modulo 256.
pub open spec fn alu_value(op: AluOp, vx: u8, vy: u8) -> u8 {
    match op {
        AluOp::Assign => vy,
        AluOp::Or => vx | vy,
        AluOp::And => vx & vy,
        AluOp::Xor => vx ^ vy,
        AluOp::Add => ((vx + vy) % 256) as u8,
        AluOp::Sub => ((vx - vy) % 256) as u8,
        AluOp::ShiftRight => vx / 2,
        AluOp::SubReverse => ((vy - vx) % 256) as u8,
        AluOp::ShiftLeft => ((vx * 2) % 256) as u8,
    }
}

/// The value that an `8XY_` operation leaves in VF, from the values that VX
/// and VY held before it, or `None` where the operation leaves VF alone.
pub open spec fn alu_flag(op: AluOp, vx: u8, vy: u8) -> Option<u8> {
    match op {
        AluOp::Assign | AluOp::Or | AluOp::And | AluOp::Xor => None,
        AluOp::Add => Some(if vx + vy > 255 { 1u8 } else { 0u8 }),
        AluOp::Sub => Some(if vx > vy { 1u8 } else { 0u8 }),
        AluOp::ShiftRight => Some(vx % 2),
        AluOp::SubReverse => Some(if vy > vx { 1u8 } else { 0u8 }),
        AluOp::ShiftLeft => Some(vx / 128),
    }
}

/// Computes an `8XY_` operation on the values of VX and VY: the new value of
/// VX and, where the operation sets it, the new value of VF. Both are taken
/// from the operands as passed in, so the flag is right also where VX or VY
/// is VF itself.
pub fn alu(op: AluOp, vx: u8, vy: u8) -> (r: (u8, Option<u8>))
    ensures
        r.0 == alu_value(op, vx, vy),
        r.1 == alu_flag(op, vx, vy),
        r.1 matches Some(flag) ==> flag <= 1,
{
    match op {
        AluOp::Assign => (vy, None),
        AluOp::Or => (vx | vy, None),
        AluOp::And => (vx & vy, None),
        AluOp::Xor => (vx ^ vy, None),
        AluOp::Add => {
            let carry: u8 = if vx > 255 - vy { 1 } else { 0 };
            (vx.wrapping_add(vy), Some(carry))
        },
        AluOp::Sub => {
            let flag: u8 = if vx > vy { 1 } else { 0 };
            (vx.wrapping_sub(vy), Some(flag))
        },
        AluOp::ShiftRight => {
            assert(vx >> 1 == vx / 2) by (bit_vector);
            assert(vx & 1 == vx % 2) by (bit_vector);
            (vx >> 1, Some(vx & 1))
        },
        AluOp::SubReverse => {
            let flag: u8 = if vy > vx { 1 } else { 0 };
            (vy.wrapping_sub(vx), Some(flag))
        },
        AluOp::ShiftLeft => {
            assert(vx << 1 == (vx * 2) % 256) by (bit_vector);
            assert(vx >> 7 == vx / 128) by (bit_vector);
            (vx << 1, Some(vx >> 7))
        },
    }
}

/// The value that `7XNN` leaves in VX: the sum modulo 256.
pub open spec fn add_wrapping(vx: u8, nn: u8) -> u8 {
    ((vx + nn) % 256) as u8
}

/// The hundreds, tens and ones digit of a byte.
pub open spec fn bcd(value: u8) -> (u8, u8, u8) {
    (value / 100, (value / 10) % 10, value % 10)
}

/// Splits a byte into its three decimal digits, hundreds first.
pub fn bcd_digits(value: u8) -> (r: (u8, u8, u8))
    ensures
        r == bcd(value),
        r.0 <= 2,
        r.1 <= 9,
        r.2 <= 9,
        100 * r.0 + 10 * r.1 + r.2 == value,
{
    (value / 100, (value / 10) % 10, value % 10)
}

} // verus!
