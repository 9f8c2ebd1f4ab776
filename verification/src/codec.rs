//! The binary codec: a bijective mapping between instructions and a 16-bit
//! wire word, persisted as two bytes, most-significant first.
//!
//! Word layout: the top four bits are the primary opcode.  Depending on it,
//! the remaining twelve bits hold three register nibbles, one register
//! nibble and an eight-bit immediate, a twelve-bit address, or a sub-opcode
//! together with register nibbles.  A bit pattern that no opcode claims
//! decodes to `None`; the execution engine treats such a word as a fatal
//! fault (this crate's documented policy for unassigned patterns).

use vstd::prelude::*;

use crate::isa::Op;
use crate::isa::ranges_ok;

verus! {

/// The primary opcode: the top four bits of a word.
pub open spec fn field_op4(w: u16) -> u16 {
    w >> 12
}

/// The register nibble in bits 11..8.
pub open spec fn field_x(w: u16) -> u8 {
    ((w >> 8) & 0xF) as u8
}

/// The register nibble in bits 7..4.
pub open spec fn field_y(w: u16) -> u8 {
    ((w >> 4) & 0xF) as u8
}

/// The register nibble in bits 3..0.
pub open spec fn field_z(w: u16) -> u8 {
    (w & 0xF) as u8
}

/// The immediate in the low eight bits.
pub open spec fn field_imm(w: u16) -> u8 {
    (w & 0xFF) as u8
}

/// The sub-opcode in bits 11..4 of the one-register group.
pub open spec fn field_sub(w: u16) -> u16 {
    (w >> 4) & 0xFF
}

/// The address in the low twelve bits.
pub open spec fn field_addr(w: u16) -> u16 {
    w & 0xFFF
}

/// The wire word of a legal instruction.
pub open spec fn encode_spec(op: Op) -> u16 {
    match op {
        Op::Halt => 0u16,
        Op::Immediate(r, v) => ((1u16 << 12) | ((r as u16) << 8)) | (v as u16),
        Op::CCNot(a, b, t) => (((2u16 << 12) | ((a as u16) << 8)) | ((b as u16) << 4)) | (t as u16),
        Op::CSwap(c, x, y) => (((3u16 << 12) | ((c as u16) << 8)) | ((x as u16) << 4)) | (y as u16),
        Op::GoTo(a) => (4u16 << 12) | a,
        Op::ComeFrom(a) => (5u16 << 12) | a,
        Op::BrGEZ(r, o) => ((6u16 << 12) | ((r as u16) << 8)) | (o as u16),
        Op::BrLZ(r, o) => ((7u16 << 12) | ((r as u16) << 8)) | (o as u16),
        Op::BrEven(r, o) => ((8u16 << 12) | ((r as u16) << 8)) | (o as u16),
        Op::BrOdd(r, o) => ((9u16 << 12) | ((r as u16) << 8)) | (o as u16),
        Op::Branch(o) => ((10u16 << 12) | (0u16 << 8)) | (o as u16),
        Op::Swap(a, b) => (((11u16 << 12) | (0u16 << 8)) | ((a as u16) << 4)) | (b as u16),
        Op::CNot(c, t) => (((11u16 << 12) | (1u16 << 8)) | ((c as u16) << 4)) | (t as u16),
        Op::CAdd(c, t) => (((11u16 << 12) | (2u16 << 8)) | ((c as u16) << 4)) | (t as u16),
        Op::CSub(c, t) => (((11u16 << 12) | (3u16 << 8)) | ((c as u16) << 4)) | (t as u16),
        Op::Exchange(r, a) => (((11u16 << 12) | (4u16 << 8)) | ((r as u16) << 4)) | (a as u16),
        Op::Not(r) => ((12u16 << 12) | (0u16 << 4)) | (r as u16),
        Op::RotateLeft(r) => ((12u16 << 12) | (1u16 << 4)) | (r as u16),
        Op::RotateRight(r) => ((12u16 << 12) | (2u16 << 4)) | (r as u16),
        Op::Increment(r) => ((12u16 << 12) | (3u16 << 4)) | (r as u16),
        Op::Decrement(r) => ((12u16 << 12) | (4u16 << 4)) | (r as u16),
        Op::Push(r) => ((12u16 << 12) | (5u16 << 4)) | (r as u16),
        Op::Pop(r) => ((12u16 << 12) | (6u16 << 4)) | (r as u16),
        Op::SwapBr(r) => ((12u16 << 12) | (7u16 << 4)) | (r as u16),
        Op::RevSwapBr(r) => ((12u16 << 12) | (8u16 << 4)) | (r as u16),
    }
}

/// The instruction a wire word denotes, or `None` for an unassigned
/// pattern.
pub open spec fn decode_spec(w: u16) -> Option<Op> {
    let op4 = field_op4(w);
    if op4 == 0 {
        if w == 0u16 {
            Some(Op::Halt)
        } else {
            None
        }
    } else if op4 == 1 {
        Some(Op::Immediate(field_x(w), field_imm(w)))
    } else if op4 == 2 {
        Some(Op::CCNot(field_x(w), field_y(w), field_z(w)))
    } else if op4 == 3 {
        Some(Op::CSwap(field_x(w), field_y(w), field_z(w)))
    } else if op4 == 4 {
        Some(Op::GoTo(field_addr(w)))
    } else if op4 == 5 {
        Some(Op::ComeFrom(field_addr(w)))
    } else if op4 == 6 {
        Some(Op::BrGEZ(field_x(w), field_imm(w)))
    } else if op4 == 7 {
        Some(Op::BrLZ(field_x(w), field_imm(w)))
    } else if op4 == 8 {
        Some(Op::BrEven(field_x(w), field_imm(w)))
    } else if op4 == 9 {
        Some(Op::BrOdd(field_x(w), field_imm(w)))
    } else if op4 == 10 {
        if (w >> 8) & 0xF == 0 {
            Some(Op::Branch(field_imm(w)))
        } else {
            None
        }
    } else if op4 == 11 {
        let sub = (w >> 8) & 0xF;
        if sub == 0 {
            Some(Op::Swap(field_y(w), field_z(w)))
        } else if sub == 1 {
            Some(Op::CNot(field_y(w), field_z(w)))
        } else if sub == 2 {
            Some(Op::CAdd(field_y(w), field_z(w)))
        } else if sub == 3 {
            Some(Op::CSub(field_y(w), field_z(w)))
        } else if sub == 4 {
            Some(Op::Exchange(field_y(w), field_z(w)))
        } else {
            None
        }
    } else if op4 == 12 {
        let sub = field_sub(w);
        if sub == 0 {
            Some(Op::Not(field_z(w)))
        } else if sub == 1 {
            Some(Op::RotateLeft(field_z(w)))
        } else if sub == 2 {
            Some(Op::RotateRight(field_z(w)))
        } else if sub == 3 {
            Some(Op::Increment(field_z(w)))
        } else if sub == 4 {
            Some(Op::Decrement(field_z(w)))
        } else if sub == 5 {
            Some(Op::Push(field_z(w)))
        } else if sub == 6 {
            Some(Op::Pop(field_z(w)))
        } else if sub == 7 {
            Some(Op::SwapBr(field_z(w)))
        } else if sub == 8 {
            Some(Op::RevSwapBr(field_z(w)))
        } else {
            None
        }
    } else {
        None
    }
}

/// Field extraction of a word built from an opcode, a register nibble and
/// an eight-bit immediate.
proof fn lemma_word_reg_imm(op4: u16, x: u16, y: u16)
    by (bit_vector)
    requires
        op4 < 16,
        x < 16,
        y < 256,
    ensures
        (((op4 << 12) | (x << 8)) | y) >> 12 == op4,
        ((((op4 << 12) | (x << 8)) | y) >> 8) & 0xF == x,
        (((op4 << 12) | (x << 8)) | y) & 0xFF == y,
{
}

/// Field extraction of a word built from an opcode and three nibbles.
proof fn lemma_word_nibbles(op4: u16, a: u16, b: u16, c: u16)
    by (bit_vector)
    requires
        op4 < 16,
        a < 16,
        b < 16,
        c < 16,
    ensures
        ((((op4 << 12) | (a << 8)) | (b << 4)) | c) >> 12 == op4,
        (((((op4 << 12) | (a << 8)) | (b << 4)) | c) >> 8) & 0xF == a,
        (((((op4 << 12) | (a << 8)) | (b << 4)) | c) >> 4) & 0xF == b,
        ((((op4 << 12) | (a << 8)) | (b << 4)) | c) & 0xF == c,
{
}

/// Field extraction of a word built from an opcode and a twelve-bit
/// address.
proof fn lemma_word_addr(op4: u16, a: u16)
    by (bit_vector)
    requires
        op4 < 16,
        a < 0x1000,
    ensures
        ((op4 << 12) | a) >> 12 == op4,
        ((op4 << 12) | a) & 0xFFF == a,
{
}

/// Field extraction of a word of the one-register group: opcode 12, an
/// eight-bit sub-opcode and a register nibble.
proof fn lemma_word_sub_reg(sub: u16, r: u16)
    by (bit_vector)
    requires
        sub < 256,
        r < 16,
    ensures
        (((12u16 << 12) | (sub << 4)) | r) >> 12 == 12,
        ((((12u16 << 12) | (sub << 4)) | r) >> 4) & 0xFF == sub,
        (((12u16 << 12) | (sub << 4)) | r) & 0xF == r,
{
}

/// The ranges of every extracted field, for an arbitrary word.
proof fn lemma_field_ranges(w: u16)
    by (bit_vector)
    ensures
        (w >> 8) & 0xF < 16,
        (w >> 4) & 0xF < 16,
        w & 0xF < 16,
        w & 0xFF < 256,
        (w >> 4) & 0xFF < 256,
        w & 0xFFF < 0x1000,
        0u16 >> 12 == 0,
{
}

/// A decoded instruction always has its operands in range.
pub proof fn lemma_decode_ranges(w: u16)
    ensures
        decode_spec(w) matches Some(op) ==> ranges_ok(op),
{
    lemma_field_ranges(w);
}

/// Decoding inverts encoding: every instruction whose operands are in
/// range comes back unchanged from its own wire word.
pub proof fn lemma_decode_encode(op: Op)
    requires
        ranges_ok(op),
    ensures
        decode_spec(encode_spec(op)) == Some(op),
{
    match op {
        Op::Halt => {
            lemma_field_ranges(0u16);
        },
        Op::Immediate(r, v) => {
            lemma_word_reg_imm(1, r as u16, v as u16);
        },
        Op::CCNot(a, b, t) => {
            lemma_word_nibbles(2, a as u16, b as u16, t as u16);
        },
        Op::CSwap(c, x, y) => {
            lemma_word_nibbles(3, c as u16, x as u16, y as u16);
        },
        Op::GoTo(a) => {
            lemma_word_addr(4, a);
        },
        Op::ComeFrom(a) => {
            lemma_word_addr(5, a);
        },
        Op::BrGEZ(r, o) => {
            lemma_word_reg_imm(6, r as u16, o as u16);
        },
        Op::BrLZ(r, o) => {
            lemma_word_reg_imm(7, r as u16, o as u16);
        },
        Op::BrEven(r, o) => {
            lemma_word_reg_imm(8, r as u16, o as u16);
        },
        Op::BrOdd(r, o) => {
            lemma_word_reg_imm(9, r as u16, o as u16);
        },
        Op::Branch(o) => {
            lemma_word_reg_imm(10, 0, o as u16);
        },
        Op::Swap(a, b) => {
            lemma_word_nibbles(11, 0, a as u16, b as u16);
        },
        Op::CNot(c, t) => {
            lemma_word_nibbles(11, 1, c as u16, t as u16);
        },
        Op::CAdd(c, t) => {
            lemma_word_nibbles(11, 2, c as u16, t as u16);
        },
        Op::CSub(c, t) => {
            lemma_word_nibbles(11, 3, c as u16, t as u16);
        },
        Op::Exchange(r, a) => {
            lemma_word_nibbles(11, 4, r as u16, a as u16);
        },
        Op::Not(r) => {
            lemma_word_sub_reg(0, r as u16);
        },
        Op::RotateLeft(r) => {
            lemma_word_sub_reg(1, r as u16);
        },
        Op::RotateRight(r) => {
            lemma_word_sub_reg(2, r as u16);
        },
        Op::Increment(r) => {
            lemma_word_sub_reg(3, r as u16);
        },
        Op::Decrement(r) => {
            lemma_word_sub_reg(4, r as u16);
        },
        Op::Push(r) => {
            lemma_word_sub_reg(5, r as u16);
        },
        Op::Pop(r) => {
            lemma_word_sub_reg(6, r as u16);
        },
        Op::SwapBr(r) => {
            lemma_word_sub_reg(7, r as u16);
        },
        Op::RevSwapBr(r) => {
            lemma_word_sub_reg(8, r as u16);
        },
    }
}

/// Any word splits into its fields and reassembles to itself, for each of
/// the four field layouts.
proof fn lemma_word_rebuild(w: u16)
    by (bit_vector)
    ensures
        (((w >> 12) << 12) | (((w >> 8) & 0xF) << 8)) | (w & 0xFF) == w,
        ((((w >> 12) << 12) | (((w >> 8) & 0xF) << 8)) | (((w >> 4) & 0xF) << 4)) | (w & 0xF) == w,
        ((w >> 12) << 12) | (w & 0xFFF) == w,
        (((w >> 12) << 12) | (((w >> 4) & 0xFF) << 4)) | (w & 0xF) == w,
{
}

/// Encoding inverts decoding: a word that decodes at all is exactly the
/// wire word of the instruction it decodes to.  Together with
/// `lemma_decode_encode` this makes the codec a bijection between legal
/// instructions and assigned words.
pub proof fn lemma_encode_decode(w: u16)
    ensures
        decode_spec(w) matches Some(op) ==> encode_spec(op) == w,
{
    lemma_field_ranges(w);
    lemma_word_rebuild(w);
}

/// Encode an instruction as its 16-bit wire word.
pub fn encode(op: &Op) -> (w: u16)
    requires
        ranges_ok(*op),
    ensures
        w == encode_spec(*op),
        decode_spec(w) == Some(*op),
{
    proof {
        lemma_decode_encode(*op);
    }
    match *op {
        Op::Halt => 0u16,
        Op::Immediate(r, v) => ((1u16 << 12) | ((r as u16) << 8)) | (v as u16),
        Op::CCNot(a, b, t) => (((2u16 << 12) | ((a as u16) << 8)) | ((b as u16) << 4)) | (t as u16),
        Op::CSwap(c, x, y) => (((3u16 << 12) | ((c as u16) << 8)) | ((x as u16) << 4)) | (y as u16),
        Op::GoTo(a) => (4u16 << 12) | a,
        Op::ComeFrom(a) => (5u16 << 12) | a,
        Op::BrGEZ(r, o) => ((6u16 << 12) | ((r as u16) << 8)) | (o as u16),
        Op::BrLZ(r, o) => ((7u16 << 12) | ((r as u16) << 8)) | (o as u16),
        Op::BrEven(r, o) => ((8u16 << 12) | ((r as u16) << 8)) | (o as u16),
        Op::BrOdd(r, o) => ((9u16 << 12) | ((r as u16) << 8)) | (o as u16),
        Op::Branch(o) => ((10u16 << 12) | (0u16 << 8)) | (o as u16),
        Op::Swap(a, b) => (((11u16 << 12) | (0u16 << 8)) | ((a as u16) << 4)) | (b as u16),
        Op::CNot(c, t) => (((11u16 << 12) | (1u16 << 8)) | ((c as u16) << 4)) | (t as u16),
        Op::CAdd(c, t) => (((11u16 << 12) | (2u16 << 8)) | ((c as u16) << 4)) | (t as u16),
        Op::CSub(c, t) => (((11u16 << 12) | (3u16 << 8)) | ((c as u16) << 4)) | (t as u16),
        Op::Exchange(r, a) => (((11u16 << 12) | (4u16 << 8)) | ((r as u16) << 4)) | (a as u16),
        Op::Not(r) => ((12u16 << 12) | (0u16 << 4)) | (r as u16),
        Op::RotateLeft(r) => ((12u16 << 12) | (1u16 << 4)) | (r as u16),
        Op::RotateRight(r) => ((12u16 << 12) | (2u16 << 4)) | (r as u16),
        Op::Increment(r) => ((12u16 << 12) | (3u16 << 4)) | (r as u16),
        Op::Decrement(r) => ((12u16 << 12) | (4u16 << 4)) | (r as u16),
        Op::Push(r) => ((12u16 << 12) | (5u16 << 4)) | (r as u16),
        Op::Pop(r) => ((12u16 << 12) | (6u16 << 4)) | (r as u16),
        Op::SwapBr(r) => ((12u16 << 12) | (7u16 << 4)) | (r as u16),
        Op::RevSwapBr(r) => ((12u16 << 12) | (8u16 << 4)) | (r as u16),
    }
}

/// Decode a 16-bit wire word, `None` for an unassigned pattern.
pub fn decode(w: u16) -> (r: Option<Op>)
    ensures
        r == decode_spec(w),
        r matches Some(op) ==> ranges_ok(op),
{
    proof {
        lemma_decode_ranges(w);
    }
    let op4 = w >> 12;
    if op4 == 0 {
        if w == 0u16 {
            Some(Op::Halt)
        } else {
            None
        }
    } else if op4 == 1 {
        Some(Op::Immediate(((w >> 8) & 0xF) as u8, (w & 0xFF) as u8))
    } else if op4 == 2 {
        Some(Op::CCNot(((w >> 8) & 0xF) as u8, ((w >> 4) & 0xF) as u8, (w & 0xF) as u8))
    } else if op4 == 3 {
        Some(Op::CSwap(((w >> 8) & 0xF) as u8, ((w >> 4) & 0xF) as u8, (w & 0xF) as u8))
    } else if op4 == 4 {
        Some(Op::GoTo(w & 0xFFF))
    } else if op4 == 5 {
        Some(Op::ComeFrom(w & 0xFFF))
    } else if op4 == 6 {
        Some(Op::BrGEZ(((w >> 8) & 0xF) as u8, (w & 0xFF) as u8))
    } else if op4 == 7 {
        Some(Op::BrLZ(((w >> 8) & 0xF) as u8, (w & 0xFF) as u8))
    } else if op4 == 8 {
        Some(Op::BrEven(((w >> 8) & 0xF) as u8, (w & 0xFF) as u8))
    } else if op4 == 9 {
        Some(Op::BrOdd(((w >> 8) & 0xF) as u8, (w & 0xFF) as u8))
    } else if op4 == 10 {
        if (w >> 8) & 0xF == 0 {
            Some(Op::Branch((w & 0xFF) as u8))
        } else {
            None
        }
    } else if op4 == 11 {
        let sub = (w >> 8) & 0xF;
        let a = ((w >> 4) & 0xF) as u8;
        let b = (w & 0xF) as u8;
        if sub == 0 {
            Some(Op::Swap(a, b))
        } else if sub == 1 {
            Some(Op::CNot(a, b))
        } else if sub == 2 {
            Some(Op::CAdd(a, b))
        } else if sub == 3 {
            Some(Op::CSub(a, b))
        } else if sub == 4 {
            Some(Op::Exchange(a, b))
        } else {
            None
        }
    } else if op4 == 12 {
        let sub = (w >> 4) & 0xFF;
        let reg = (w & 0xF) as u8;
        if sub == 0 {
            Some(Op::Not(reg))
        } else if sub == 1 {
            Some(Op::RotateLeft(reg))
        } else if sub == 2 {
            Some(Op::RotateRight(reg))
        } else if sub == 3 {
            Some(Op::Increment(reg))
        } else if sub == 4 {
            Some(Op::Decrement(reg))
        } else if sub == 5 {
            Some(Op::Push(reg))
        } else if sub == 6 {
            Some(Op::Pop(reg))
        } else if sub == 7 {
            Some(Op::SwapBr(reg))
        } else if sub == 8 {
            Some(Op::RevSwapBr(reg))
        } else {
            None
        }
    } else {
        None
    }
}

/// The two object-file bytes of a wire word, most-significant first.
pub open spec fn word_bytes(w: u16) -> Seq<u8> {
    seq![(w >> 8) as u8, (w & 0xFF) as u8]
}

/// The wire word read back from two object-file bytes.
pub open spec fn word_of_bytes(hi: u8, lo: u8) -> u16 {
    ((hi as u16) << 8) | (lo as u16)
}

/// The persisted form loses nothing: reading the two bytes of a word back
/// gives the word.
pub proof fn lemma_word_bytes_round_trip(w: u16)
    ensures
        word_of_bytes(word_bytes(w)[0], word_bytes(w)[1]) == w,
{
    assert(((((w >> 8) as u8) as u16) << 8) | (((w & 0xFF) as u8) as u16) == w) by (bit_vector);
}

} // verus!
