//! The instruction model: every operation of the machine and the legality
//! rules for its operands.

use vstd::prelude::*;

verus! {

/// One machine instruction.
///
/// Operand kinds: a register index (`u8`, `0..16`), an immediate (`u8`, any
/// value), or a program address (`u16`, `0..0x1000`).
#[derive(Clone, Copy, Debug, PartialEq, Eq, Structural)]
pub enum Op {
    /// Stop the machine.
    Halt,
    /// Bitwise complement of a register.
    Not(u8),
    /// Rotate a register left by one bit.
    RotateLeft(u8),
    /// Rotate a register right by one bit.
    RotateRight(u8),
    /// Add one to a register, wrapping.
    Increment(u8),
    /// Subtract one from a register, wrapping.
    Decrement(u8),
    /// Decrement the stack pointer, then exchange the register with the
    /// stack slot it now points at.
    Push(u8),
    /// Exchange the register with the stack slot, then increment the stack
    /// pointer.
    Pop(u8),
    /// Exchange the branch register with a register.
    SwapBr(u8),
    /// Exchange the branch register with a register, then flip the
    /// execution direction.
    RevSwapBr(u8),
    /// Exchange two registers (they may be equal).
    Swap(u8, u8),
    /// `CNot(c, t)`: xor register `c` into register `t`; `c != t`.
    CNot(u8, u8),
    /// `CAdd(c, t)`: add register `c` into register `t`, wrapping; `c != t`.
    CAdd(u8, u8),
    /// `CSub(c, t)`: subtract register `c` from register `t`, wrapping;
    /// `c != t`.
    CSub(u8, u8),
    /// `Exchange(r, a)`: swap register `r` with data memory word `a`, where
    /// the second operand is a register index used directly as the address.
    Exchange(u8, u8),
    /// `Immediate(r, v)`: xor the immediate into register `r` (an xor load,
    /// so that the operation is its own inverse).
    Immediate(u8, u8),
    /// `CCNot(a, b, t)` (Toffoli): xor `R[a] & R[b]` into register `t`;
    /// `t` must differ from both controls.
    CCNot(u8, u8, u8),
    /// `CSwap(c, x, y)` (Fredkin): swap the bits of `x` and `y` that are set
    /// in control `c`; `c` must differ from both targets.
    CSwap(u8, u8, u8),
    /// Add the immediate into the branch register, wrapping.
    Branch(u8),
    /// `BrGEZ(r, off)`: add `off` to the branch register iff `R[r]`, read as
    /// a signed word, is not negative.
    BrGEZ(u8, u8),
    /// `BrLZ(r, off)`: add `off` to the branch register iff `R[r]`, read as
    /// a signed word, is negative.
    BrLZ(u8, u8),
    /// `BrEven(r, off)`: add `off` to the branch register iff `R[r]` is even.
    BrEven(u8, u8),
    /// `BrOdd(r, off)`: add `off` to the branch register iff `R[r]` is odd.
    BrOdd(u8, u8),
    /// Reserved direct control transfer; encodable, executed as a no-op.
    GoTo(u16),
    /// Reserved direct control transfer; encodable, executed as a no-op.
    ComeFrom(u16),
}

/// Every operand lies in the range its kind allows: register indices below
/// 16 and addresses below 0x1000.
pub open spec fn ranges_ok(op: Op) -> bool {
    match op {
        Op::Halt => true,
        Op::Not(r) => r < 16,
        Op::RotateLeft(r) => r < 16,
        Op::RotateRight(r) => r < 16,
        Op::Increment(r) => r < 16,
        Op::Decrement(r) => r < 16,
        Op::Push(r) => r < 16,
        Op::Pop(r) => r < 16,
        Op::SwapBr(r) => r < 16,
        Op::RevSwapBr(r) => r < 16,
        Op::Swap(a, b) => a < 16 && b < 16,
        Op::CNot(c, t) => c < 16 && t < 16,
        Op::CAdd(c, t) => c < 16 && t < 16,
        Op::CSub(c, t) => c < 16 && t < 16,
        Op::Exchange(r, a) => r < 16 && a < 16,
        Op::Immediate(r, _) => r < 16,
        Op::CCNot(a, b, t) => a < 16 && b < 16 && t < 16,
        Op::CSwap(c, x, y) => c < 16 && x < 16 && y < 16,
        Op::Branch(_) => true,
        Op::BrGEZ(r, _) => r < 16,
        Op::BrLZ(r, _) => r < 16,
        Op::BrEven(r, _) => r < 16,
        Op::BrOdd(r, _) => r < 16,
        Op::GoTo(a) => a < 0x1000,
        Op::ComeFrom(a) => a < 0x1000,
    }
}

/// The distinctness rules for reversible gates with a designated target:
/// the mutated operand must differ from every control operand.  `Swap` has
/// no such rule.
pub open spec fn distinct_ok(op: Op) -> bool {
    match op {
        Op::CNot(c, t) => c != t,
        Op::CAdd(c, t) => c != t,
        Op::CSub(c, t) => c != t,
        Op::CCNot(a, b, t) => t != a && t != b,
        Op::CSwap(c, x, y) => c != x && c != y,
        _ => true,
    }
}

/// A legal instruction: every operand in range, and the mutated operand of
/// a gate distinct from its controls.
pub open spec fn wf(op: Op) -> bool {
    ranges_ok(op) && distinct_ok(op)
}

} // verus!
