//! The assembler: line-oriented mnemonic text compiled into validated
//! instructions and object bytes.
//!
//! Grammar per line: optional leading whitespace, a mnemonic,
//! whitespace-separated operand tokens, then an optional comment.  The
//! comment begins at the first `#` or `;` anywhere in the line and runs to
//! the end of the line.  Whitespace within a line is a space, a tab or a
//! carriage return.  A comment-only or empty line assembles to nothing.
//!
//! Validation order: the syntax of each operand first, left to right, then
//! the joint distinctness constraints, then a check that nothing trails the
//! expected operands.  The first violation is reported with its 1-based
//! line number, and no object bytes are produced.

use vstd::prelude::*;

use crate::codec::decode_spec;
use crate::codec::encode;
use crate::codec::encode_spec;
use crate::codec::lemma_decode_encode;
use crate::codec::lemma_word_bytes_round_trip;
use crate::codec::word_bytes;
use crate::cpu::words_of_bytes;
use crate::isa::Op;
use crate::isa::wf;

verus! {

/// Whitespace that separates tokens within a line.
pub open spec fn is_ws(c: char) -> bool {
    c == ' ' || c == '\t' || c == '\r'
}

/// The character that begins a trailing comment.
pub open spec fn is_comment_char(c: char) -> bool {
    c == '#' || c == ';'
}

/// A decimal digit.
pub open spec fn is_digit(c: char) -> bool {
    48 <= c as u32 <= 57
}

/// The value of a decimal digit.
pub open spec fn digit_val(c: char) -> nat {
    (c as u32 - 48) as nat
}

/// Whether the whole sequence is decimal digits.
pub open spec fn all_digits(s: Seq<char>) -> bool {
    forall|i: int| 0 <= i < s.len() ==> is_digit(s[i])
}

/// The numeric value of a digit sequence, most-significant digit first.
pub open spec fn dec_val(s: Seq<char>) -> nat
    decreases s.len(),
{
    if s.len() == 0 {
        0
    } else {
        dec_val(s.drop_last()) * 10 + digit_val(s.last())
    }
}

/// Where the token starting at `i` ends: the first position at or after `i`
/// holding whitespace or a comment character, or the end of the line.
pub open spec fn token_end(s: Seq<char>, i: int) -> int
    decreases s.len() - i,
{
    if i < 0 || i >= s.len() {
        i
    } else if is_ws(s[i]) || is_comment_char(s[i]) {
        i
    } else {
        token_end(s, i + 1)
    }
}

/// `token_end` stays within the line and does not move backward.
proof fn lemma_token_end_bounds(s: Seq<char>, i: int)
    requires
        0 <= i <= s.len(),
    ensures
        i <= token_end(s, i) <= s.len(),
        i < s.len() && !is_ws(s[i]) && !is_comment_char(s[i]) ==> token_end(s, i) > i,
    decreases s.len() - i,
{
    if i < s.len() && !is_ws(s[i]) && !is_comment_char(s[i]) {
        lemma_token_end_bounds(s, i + 1);
    }
}

/// The characterization of `token_end` that a left-to-right scan
/// establishes.
proof fn lemma_token_end_at(s: Seq<char>, i: int, j: int)
    requires
        0 <= i <= j <= s.len(),
        forall|k: int| i <= k < j ==> !is_ws(s[k]) && !is_comment_char(s[k]),
        j == s.len() || is_ws(s[j]) || is_comment_char(s[j]),
    ensures
        token_end(s, i) == j,
    decreases j - i,
{
    if i < j {
        lemma_token_end_at(s, i + 1, j);
    }
}

/// The tokens of the line from position `i` on, stopping at the first
/// comment character.
pub open spec fn tokens_from(s: Seq<char>, i: int) -> Seq<Seq<char>>
    decreases s.len() - i,
    via tokens_from_dec
{
    if i < 0 || i >= s.len() {
        Seq::empty()
    } else if is_comment_char(s[i]) {
        Seq::empty()
    } else if is_ws(s[i]) {
        tokens_from(s, i + 1)
    } else {
        seq![s.subrange(i, token_end(s, i))] + tokens_from(s, token_end(s, i))
    }
}

#[via_fn]
proof fn tokens_from_dec(s: Seq<char>, i: int) {
    if 0 <= i < s.len() && !is_comment_char(s[i]) && !is_ws(s[i]) {
        lemma_token_end_bounds(s, i);
    }
}

/// The tokens of one source line: everything before the comment, split on
/// whitespace.
pub open spec fn tokens_of(s: Seq<char>) -> Seq<Seq<char>> {
    tokens_from(s, 0)
}

/// Split a line into its tokens.
fn tokenize(line: &str) -> (toks: Vec<String>)
    ensures
        toks.deep_view() == tokens_of(line@),
{
    let n: usize = line.unicode_len();
    let mut toks: Vec<String> = Vec::new();
    let mut i: usize = 0;
    let mut done = false;
    while i < n && !done
        invariant
            n == line@.len(),
            i <= n,
            tokens_of(line@) == toks.deep_view() + (if done {
                Seq::<Seq<char>>::empty()
            } else {
                tokens_from(line@, i as int)
            }),
        decreases n - i, (if done { 0int } else { 1int }),
    {
        let c = line.get_char(i);
        if c == '#' || c == ';' {
            done = true;
            proof {
                assert(tokens_from(line@, i as int) =~= Seq::<Seq<char>>::empty());
            }
        } else if c == ' ' || c == '\t' || c == '\r' {
            i = i + 1;
        } else {
            let mut j: usize = i;
            let mut endj = false;
            while j < n && !endj
                invariant
                    n == line@.len(),
                    i <= j <= n,
                    forall|k: int| i <= k < j ==> !is_ws(line@[k]) && !is_comment_char(line@[k]),
                    endj ==> j < n && (is_ws(line@[j as int]) || is_comment_char(line@[j as int])),
                decreases n - j, (if endj { 0int } else { 1int }),
            {
                let cj = line.get_char(j);
                if cj == ' ' || cj == '\t' || cj == '\r' || cj == '#' || cj == ';' {
                    endj = true;
                } else {
                    j = j + 1;
                }
            }
            let tok = String::from_str(line.substring_char(i, j));
            proof {
                lemma_token_end_at(line@, i as int, j as int);
                assert(tokens_from(line@, i as int) == seq![line@.subrange(i as int, j as int)]
                    + tokens_from(line@, j as int));
            }
            let ghost old_dv = toks.deep_view();
            toks.push(tok);
            proof {
                assert(toks.deep_view() =~= old_dv.push(tok@));
                assert(toks.deep_view() + tokens_from(line@, j as int) =~= old_dv + tokens_from(
                    line@,
                    i as int,
                ));
            }
            i = j;
        }
    }
    proof {
        if !done {
            assert(tokens_from(line@, i as int) =~= Seq::<Seq<char>>::empty());
        }
        assert(toks.deep_view() =~= tokens_of(line@));
    }
    toks
}

/// Why a decimal token was rejected.
#[derive(Clone, Copy, Debug, PartialEq, Eq, Structural)]
pub enum DecErr {
    /// Empty, or holding a character that is not a decimal digit.
    InvalidDigit,
    /// All digits, but a value above 65535.
    TooLarge,
}

/// A decimal token's value, or why it has none.
pub open spec fn dec_result(s: Seq<char>) -> Result<u16, DecErr> {
    if s.len() == 0 || !all_digits(s) {
        Err(DecErr::InvalidDigit)
    } else if dec_val(s) > 0xFFFF {
        Err(DecErr::TooLarge)
    } else {
        Ok(dec_val(s) as u16)
    }
}

/// Parse an unsigned decimal token of at most 65535.
fn parse_dec(s: &str) -> (r: Result<u16, DecErr>)
    ensures
        r == dec_result(s@),
{
    let n: usize = s.unicode_len();
    if n == 0 {
        return Err(DecErr::InvalidDigit);
    }
    let mut i: usize = 0;
    while i < n
        invariant
            n == s@.len(),
            i <= n,
            forall|k: int| 0 <= k < i ==> is_digit(s@[k]),
        decreases n - i,
    {
        let c = s.get_char(i);
        let u = c as u32;
        if !(48 <= u && u <= 57) {
            return Err(DecErr::InvalidDigit);
        }
        i = i + 1;
    }
    let mut acc: u32 = 0;
    i = 0;
    while i < n
        invariant
            n == s@.len(),
            i <= n,
            all_digits(s@),
            acc <= 0xFFFF * 10 + 9,
            dec_val(s@.take(i as int)) <= 0xFFFF ==> acc == dec_val(s@.take(i as int)),
            dec_val(s@.take(i as int)) > 0xFFFF ==> acc > 0xFFFF,
        decreases n - i,
    {
        let c = s.get_char(i);
        let d = (c as u32) - 48;
        proof {
            assert(s@.take(i + 1).drop_last() =~= s@.take(i as int));
            assert(s@.take(i + 1).last() == s@[i as int]);
        }
        if acc > 0xFFFF {
            acc = 0x10000;
        } else {
            acc = acc * 10 + d;
        }
        i = i + 1;
    }
    proof {
        assert(s@.take(n as int) =~= s@);
    }
    if acc > 0xFFFF {
        Err(DecErr::TooLarge)
    } else {
        Ok(acc as u16)
    }
}

/// The message for a token that is not a number.
pub open spec fn msg_invalid_digit() -> Seq<char> {
    "invalid digit found in string"@
}

/// The message for a numeric token too large for its field.
pub open spec fn msg_num_too_large() -> Seq<char> {
    "number too large to fit in target type"@
}

/// The message for a register index of 16 or more.
pub open spec fn msg_reg_too_big() -> Seq<char> {
    "index for register too big!"@
}

/// The message for a token that is not a register literal.
pub open spec fn msg_expected_reg(t: Seq<char>) -> Seq<char> {
    "expected register literal, found "@ + t
}

/// The value of an immediate token: a decimal number of at most 255.
pub open spec fn byte_result(s: Seq<char>) -> Result<u8, Seq<char>> {
    match dec_result(s) {
        Err(DecErr::InvalidDigit) => Err(msg_invalid_digit()),
        Err(DecErr::TooLarge) => Err(msg_num_too_large()),
        Ok(v) => if v > 255 {
            Err(msg_num_too_large())
        } else {
            Ok(v as u8)
        },
    }
}

/// Parse an unsigned decimal token of at most 255, as an immediate operand.
pub fn parse_byte(s: &str) -> (r: Result<u8, String>)
    ensures
        r matches Ok(v) ==> byte_result(s@) == Ok::<u8, Seq<char>>(v),
        r matches Err(m) ==> (byte_result(s@) matches Err(ms) && m@ == ms),
        r is Ok <==> byte_result(s@) is Ok,
{
    match parse_dec(s) {
        Err(DecErr::InvalidDigit) => Err(String::from_str("invalid digit found in string")),
        Err(DecErr::TooLarge) => Err(String::from_str("number too large to fit in target type")),
        Ok(v) => {
            if v > 255 {
                Err(String::from_str("number too large to fit in target type"))
            } else {
                Ok(v as u8)
            }
        },
    }
}

/// The register index a token names: an `r` followed by a decimal index
/// below 16.
pub open spec fn reg_result(t: Seq<char>) -> Result<u8, Seq<char>> {
    if t.len() == 0 || t[0] != 'r' {
        Err(msg_expected_reg(t))
    } else {
        match byte_result(t.skip(1)) {
            Err(m) => Err(m),
            Ok(v) => if v < 16 {
                Ok(v)
            } else {
                Err(msg_reg_too_big())
            },
        }
    }
}

/// Parse a register literal `r<N>`, `N` a decimal index below 16.
pub fn parse_reglit(s: &str) -> (r: Result<usize, String>)
    ensures
        r matches Ok(v) ==> (reg_result(s@) == Ok::<u8, Seq<char>>(v as u8) && v < 16),
        r matches Err(m) ==> (reg_result(s@) matches Err(ms) && m@ == ms),
        r is Ok <==> reg_result(s@) is Ok,
{
    let n: usize = s.unicode_len();
    if n == 0 || s.get_char(0) != 'r' {
        return Err(String::from_str("expected register literal, found ").concat(s));
    }
    let rest = s.substring_char(1, n);
    proof {
        assert(rest@ =~= s@.skip(1));
    }
    match parse_byte(rest) {
        Err(m) => Err(m),
        Ok(v) => {
            if v < 16 {
                Ok(v as usize)
            } else {
                Err(String::from_str("index for register too big!"))
            }
        },
    }
}

/// The message for a line that needs a register operand it does not have.
pub open spec fn msg_no_register() -> Seq<char> {
    "register argument not found"@
}

/// The message for an `imm` line without its value operand.
pub open spec fn msg_no_value() -> Seq<char> {
    "no value for lit instruction given"@
}

/// The message for a `goto`/`cmfr` line without its address operand.
pub open spec fn msg_no_address() -> Seq<char> {
    "address argument not found"@
}

/// The message for an address of 0x1000 or more.
pub open spec fn msg_addr_too_big() -> Seq<char> {
    "value for argument too big!"@
}

/// The message for a two-register gate whose operands coincide.
pub open spec fn msg_same_register() -> Seq<char> {
    "can't use the same register in cnot"@
}

/// The message for a three-register gate whose mutated operand repeats a
/// control.
pub open spec fn msg_aliased_register() -> Seq<char> {
    "controlled argument used in mutable argument"@
}

/// The message for an unknown mnemonic, naming the token.
pub open spec fn msg_unknown(t: Seq<char>) -> Seq<char> {
    "unknown opcode mnemonic: "@ + t
}

/// The message for a stray token after the expected operands, naming it.
pub open spec fn msg_trailing(t: Seq<char>) -> Seq<char> {
    "expected comment or line break, found "@ + t
}

/// The register operand at token position `idx`, or why it is missing.
pub open spec fn get_reg_result(toks: Seq<Seq<char>>, idx: int) -> Result<u8, Seq<char>> {
    if toks.len() <= idx {
        Err(msg_no_register())
    } else {
        reg_result(toks[idx])
    }
}

/// What one source line denotes.
pub enum LineOut {
    /// Empty or comment-only: no instruction slot consumed.
    Blank,
    /// One validated instruction.
    Code(Op),
    /// The message of the first violation on the line.
    Fail(Seq<char>),
}

/// Wrap a parsed instruction, unless a stray token follows the operands.
pub open spec fn arity_check(toks: Seq<Seq<char>>, nops: int, op: Op) -> LineOut {
    if toks.len() > nops + 1 {
        LineOut::Fail(msg_trailing(toks[nops + 1]))
    } else {
        LineOut::Code(op)
    }
}

/// A mnemonic with one register operand.
pub open spec fn reg1_result(toks: Seq<Seq<char>>, f: spec_fn(u8) -> Op) -> LineOut {
    match get_reg_result(toks, 1) {
        Err(m) => LineOut::Fail(m),
        Ok(r) => arity_check(toks, 1, f(r)),
    }
}

/// A mnemonic with two register operands and no distinctness rule.
pub open spec fn reg2_result(toks: Seq<Seq<char>>, f: spec_fn(u8, u8) -> Op) -> LineOut {
    match get_reg_result(toks, 1) {
        Err(m) => LineOut::Fail(m),
        Ok(a) => match get_reg_result(toks, 2) {
            Err(m) => LineOut::Fail(m),
            Ok(b) => arity_check(toks, 2, f(a, b)),
        },
    }
}

/// A mnemonic with two register operands that must differ.
pub open spec fn reg2_distinct_result(toks: Seq<Seq<char>>, f: spec_fn(u8, u8) -> Op) -> LineOut {
    match get_reg_result(toks, 1) {
        Err(m) => LineOut::Fail(m),
        Ok(a) => match get_reg_result(toks, 2) {
            Err(m) => LineOut::Fail(m),
            Ok(b) => if b == a {
                LineOut::Fail(msg_same_register())
            } else {
                arity_check(toks, 2, f(a, b))
            },
        },
    }
}

/// A mnemonic with three register operands, under the given distinctness
/// rule.
pub open spec fn reg3_result(
    toks: Seq<Seq<char>>,
    ok: spec_fn(u8, u8, u8) -> bool,
    f: spec_fn(u8, u8, u8) -> Op,
) -> LineOut {
    match get_reg_result(toks, 1) {
        Err(m) => LineOut::Fail(m),
        Ok(a) => match get_reg_result(toks, 2) {
            Err(m) => LineOut::Fail(m),
            Ok(b) => match get_reg_result(toks, 3) {
                Err(m) => LineOut::Fail(m),
                Ok(c) => if ok(a, b, c) {
                    arity_check(toks, 3, f(a, b, c))
                } else {
                    LineOut::Fail(msg_aliased_register())
                },
            },
        },
    }
}

/// The `imm` mnemonic: a register and an immediate.
pub open spec fn imm_result(toks: Seq<Seq<char>>) -> LineOut {
    match get_reg_result(toks, 1) {
        Err(m) => LineOut::Fail(m),
        Ok(r) => if toks.len() <= 2 {
            LineOut::Fail(msg_no_value())
        } else {
            match byte_result(toks[2]) {
                Err(m) => LineOut::Fail(m),
                Ok(v) => arity_check(toks, 2, Op::Immediate(r, v)),
            }
        },
    }
}

/// The `goto`/`cmfr` mnemonics: one address operand below 0x1000.
pub open spec fn addr_result(toks: Seq<Seq<char>>, f: spec_fn(u16) -> Op) -> LineOut {
    if toks.len() <= 1 {
        LineOut::Fail(msg_no_address())
    } else {
        match dec_result(toks[1]) {
            Err(DecErr::InvalidDigit) => LineOut::Fail(msg_invalid_digit()),
            Err(DecErr::TooLarge) => LineOut::Fail(msg_num_too_large()),
            Ok(v) => if v >= 0x1000 {
                LineOut::Fail(msg_addr_too_big())
            } else {
                arity_check(toks, 1, f(v))
            },
        }
    }
}

/// What a whole source line denotes: nothing, an instruction, or the first
/// violation found on it.
pub open spec fn line_result(line: Seq<char>) -> LineOut {
    let toks = tokens_of(line);
    if toks.len() == 0 {
        LineOut::Blank
    } else {
        let m = toks[0];
        if m == "halt"@ {
            arity_check(toks, 0, Op::Halt)
        } else if m == "not"@ {
            reg1_result(toks, |r: u8| Op::Not(r))
        } else if m == "rotl"@ {
            reg1_result(toks, |r: u8| Op::RotateLeft(r))
        } else if m == "rotr"@ {
            reg1_result(toks, |r: u8| Op::RotateRight(r))
        } else if m == "inc"@ {
            reg1_result(toks, |r: u8| Op::Increment(r))
        } else if m == "dec"@ {
            reg1_result(toks, |r: u8| Op::Decrement(r))
        } else if m == "push"@ {
            reg1_result(toks, |r: u8| Op::Push(r))
        } else if m == "pop"@ {
            reg1_result(toks, |r: u8| Op::Pop(r))
        } else if m == "swp"@ {
            reg2_result(toks, |a: u8, b: u8| Op::Swap(a, b))
        } else if m == "cnot"@ {
            reg2_distinct_result(toks, |c: u8, t: u8| Op::CNot(c, t))
        } else if m == "cadd"@ {
            reg2_distinct_result(toks, |c: u8, t: u8| Op::CAdd(c, t))
        } else if m == "csub"@ {
            reg2_distinct_result(toks, |c: u8, t: u8| Op::CSub(c, t))
        } else if m == "imm"@ {
            imm_result(toks)
        } else if m == "exch"@ {
            reg2_result(toks, |r: u8, a: u8| Op::Exchange(r, a))
        } else if m == "toff"@ || m == "ccnot"@ {
            reg3_result(
                toks,
                |a: u8, b: u8, c: u8| c != a && c != b,
                |a: u8, b: u8, c: u8| Op::CCNot(a, b, c),
            )
        } else if m == "fredk"@ || m == "cswp"@ {
            reg3_result(
                toks,
                |a: u8, b: u8, c: u8| b != a && c != a,
                |a: u8, b: u8, c: u8| Op::CSwap(a, b, c),
            )
        } else if m == "goto"@ {
            addr_result(toks, |a: u16| Op::GoTo(a))
        } else if m == "cmfr"@ {
            addr_result(toks, |a: u16| Op::ComeFrom(a))
        } else {
            LineOut::Fail(msg_unknown(m))
        }
    }
}

/// Compare two string slices character by character.
fn str_eq(a: &str, b: &str) -> (r: bool)
    ensures
        r == (a@ == b@),
{
    let na: usize = a.unicode_len();
    let nb: usize = b.unicode_len();
    if na != nb {
        return false;
    }
    let mut i: usize = 0;
    while i < na
        invariant
            na == a@.len(),
            na == b@.len(),
            i <= na,
            forall|k: int| 0 <= k < i ==> a@[k] == b@[k],
        decreases na - i,
    {
        if a.get_char(i) != b.get_char(i) {
            return false;
        }
        i = i + 1;
    }
    proof {
        assert(a@ =~= b@);
    }
    true
}

/// The register operand at token position `idx`, or the message of its
/// absence or malformation.
fn get_reg(toks: &Vec<String>, idx: usize) -> (r: Result<u8, String>)
    ensures
        r matches Ok(v) ==> (get_reg_result(toks.deep_view(), idx as int) == Ok::<u8, Seq<char>>(v)
            && v < 16),
        r matches Err(m) ==> (get_reg_result(toks.deep_view(), idx as int) matches Err(ms) && m@
            == ms),
        r is Ok <==> get_reg_result(toks.deep_view(), idx as int) is Ok,
{
    if idx >= toks.len() {
        return Err(String::from_str("register argument not found"));
    }
    match parse_reglit(toks[idx].as_str()) {
        Ok(v) => Ok(v as u8),
        Err(m) => Err(m),
    }
}

/// `None` if nothing trails the `nops` operands, else the message naming
/// the stray token.
fn check_trailing(toks: &Vec<String>, nops: usize) -> (r: Option<String>)
    requires
        nops <= 3,
    ensures
        r is None ==> toks.deep_view().len() <= nops + 1,
        r matches Some(m) ==> toks.deep_view().len() > nops + 1 && m@ == msg_trailing(
            toks.deep_view()[nops + 1],
        ),
{
    if toks.len() > nops + 1 {
        Some(String::from_str("expected comment or line break, found ").concat(
            toks[nops + 1].as_str(),
        ))
    } else {
        None
    }
}

/// Parse one source line: `None` for a blank or comment-only line, an
/// instruction otherwise, or the message of the first violation.  Every
/// instruction handed back is legal.
pub fn parse_line(line: &str) -> (r: Result<Option<Op>, String>)
    ensures
        r matches Ok(o) ==> match o {
            None => line_result(line@) is Blank,
            Some(op) => line_result(line@) == LineOut::Code(op) && wf(op),
        },
        r matches Err(m) ==> (line_result(line@) matches LineOut::Fail(ms) && m@ == ms),
        line_result(line@) is Fail <==> r is Err,
{
    let toks = tokenize(line);
    if toks.len() == 0 {
        return Ok(None);
    }
    let m = toks[0].as_str();
    if str_eq(m, "halt") {
        if let Some(e) = check_trailing(&toks, 0) {
            return Err(e);
        }
        Ok(Some(Op::Halt))
    } else if str_eq(m, "not") {
        let r = match get_reg(&toks, 1) {
            Ok(v) => v,
            Err(e) => return Err(e),
        };
        if let Some(e) = check_trailing(&toks, 1) {
            return Err(e);
        }
        Ok(Some(Op::Not(r)))
    } else if str_eq(m, "rotl") {
        let r = match get_reg(&toks, 1) {
            Ok(v) => v,
            Err(e) => return Err(e),
        };
        if let Some(e) = check_trailing(&toks, 1) {
            return Err(e);
        }
        Ok(Some(Op::RotateLeft(r)))
    } else if str_eq(m, "rotr") {
        let r = match get_reg(&toks, 1) {
            Ok(v) => v,
            Err(e) => return Err(e),
        };
        if let Some(e) = check_trailing(&toks, 1) {
            return Err(e);
        }
        Ok(Some(Op::RotateRight(r)))
    } else if str_eq(m, "inc") {
        let r = match get_reg(&toks, 1) {
            Ok(v) => v,
            Err(e) => return Err(e),
        };
        if let Some(e) = check_trailing(&toks, 1) {
            return Err(e);
        }
        Ok(Some(Op::Increment(r)))
    } else if str_eq(m, "dec") {
        let r = match get_reg(&toks, 1) {
            Ok(v) => v,
            Err(e) => return Err(e),
        };
        if let Some(e) = check_trailing(&toks, 1) {
            return Err(e);
        }
        Ok(Some(Op::Decrement(r)))
    } else if str_eq(m, "push") {
        let r = match get_reg(&toks, 1) {
            Ok(v) => v,
            Err(e) => return Err(e),
        };
        if let Some(e) = check_trailing(&toks, 1) {
            return Err(e);
        }
        Ok(Some(Op::Push(r)))
    } else if str_eq(m, "pop") {
        let r = match get_reg(&toks, 1) {
            Ok(v) => v,
            Err(e) => return Err(e),
        };
        if let Some(e) = check_trailing(&toks, 1) {
            return Err(e);
        }
        Ok(Some(Op::Pop(r)))
    } else if str_eq(m, "swp") {
        let a = match get_reg(&toks, 1) {
            Ok(v) => v,
            Err(e) => return Err(e),
        };
        let b = match get_reg(&toks, 2) {
            Ok(v) => v,
            Err(e) => return Err(e),
        };
        if let Some(e) = check_trailing(&toks, 2) {
            return Err(e);
        }
        Ok(Some(Op::Swap(a, b)))
    } else if str_eq(m, "cnot") {
        let c = match get_reg(&toks, 1) {
            Ok(v) => v,
            Err(e) => return Err(e),
        };
        let t = match get_reg(&toks, 2) {
            Ok(v) => v,
            Err(e) => return Err(e),
        };
        if t == c {
            return Err(String::from_str("can't use the same register in cnot"));
        }
        if let Some(e) = check_trailing(&toks, 2) {
            return Err(e);
        }
        Ok(Some(Op::CNot(c, t)))
    } else if str_eq(m, "cadd") {
        let c = match get_reg(&toks, 1) {
            Ok(v) => v,
            Err(e) => return Err(e),
        };
        let t = match get_reg(&toks, 2) {
            Ok(v) => v,
            Err(e) => return Err(e),
        };
        if t == c {
            return Err(String::from_str("can't use the same register in cnot"));
        }
        if let Some(e) = check_trailing(&toks, 2) {
            return Err(e);
        }
        Ok(Some(Op::CAdd(c, t)))
    } else if str_eq(m, "csub") {
        let c = match get_reg(&toks, 1) {
            Ok(v) => v,
            Err(e) => return Err(e),
        };
        let t = match get_reg(&toks, 2) {
            Ok(v) => v,
            Err(e) => return Err(e),
        };
        if t == c {
            return Err(String::from_str("can't use the same register in cnot"));
        }
        if let Some(e) = check_trailing(&toks, 2) {
            return Err(e);
        }
        Ok(Some(Op::CSub(c, t)))
    } else if str_eq(m, "imm") {
        let r = match get_reg(&toks, 1) {
            Ok(v) => v,
            Err(e) => return Err(e),
        };
        if toks.len() <= 2 {
            return Err(String::from_str("no value for lit instruction given"));
        }
        let v = match parse_byte(toks[2].as_str()) {
            Ok(v) => v,
            Err(e) => return Err(e),
        };
        if let Some(e) = check_trailing(&toks, 2) {
            return Err(e);
        }
        Ok(Some(Op::Immediate(r, v)))
    } else if str_eq(m, "exch") {
        let r = match get_reg(&toks, 1) {
            Ok(v) => v,
            Err(e) => return Err(e),
        };
        let a = match get_reg(&toks, 2) {
            Ok(v) => v,
            Err(e) => return Err(e),
        };
        if let Some(e) = check_trailing(&toks, 2) {
            return Err(e);
        }
        Ok(Some(Op::Exchange(r, a)))
    } else if str_eq(m, "toff") || str_eq(m, "ccnot") {
        let a = match get_reg(&toks, 1) {
            Ok(v) => v,
            Err(e) => return Err(e),
        };
        let b = match get_reg(&toks, 2) {
            Ok(v) => v,
            Err(e) => return Err(e),
        };
        let c = match get_reg(&toks, 3) {
            Ok(v) => v,
            Err(e) => return Err(e),
        };
        if !(c != a && c != b) {
            return Err(String::from_str("controlled argument used in mutable argument"));
        }
        if let Some(e) = check_trailing(&toks, 3) {
            return Err(e);
        }
        Ok(Some(Op::CCNot(a, b, c)))
    } else if str_eq(m, "fredk") || str_eq(m, "cswp") {
        let a = match get_reg(&toks, 1) {
            Ok(v) => v,
            Err(e) => return Err(e),
        };
        let b = match get_reg(&toks, 2) {
            Ok(v) => v,
            Err(e) => return Err(e),
        };
        let c = match get_reg(&toks, 3) {
            Ok(v) => v,
            Err(e) => return Err(e),
        };
        if !(b != a && c != a) {
            return Err(String::from_str("controlled argument used in mutable argument"));
        }
        if let Some(e) = check_trailing(&toks, 3) {
            return Err(e);
        }
        Ok(Some(Op::CSwap(a, b, c)))
    } else if str_eq(m, "goto") {
        if toks.len() <= 1 {
            return Err(String::from_str("address argument not found"));
        }
        let v = match parse_dec(toks[1].as_str()) {
            Ok(v) => v,
            Err(DecErr::InvalidDigit) => return Err(
                String::from_str("invalid digit found in string"),
            ),
            Err(DecErr::TooLarge) => return Err(
                String::from_str("number too large to fit in target type"),
            ),
        };
        if v >= 0x1000 {
            return Err(String::from_str("value for argument too big!"));
        }
        if let Some(e) = check_trailing(&toks, 1) {
            return Err(e);
        }
        Ok(Some(Op::GoTo(v)))
    } else if str_eq(m, "cmfr") {
        if toks.len() <= 1 {
            return Err(String::from_str("address argument not found"));
        }
        let v = match parse_dec(toks[1].as_str()) {
            Ok(v) => v,
            Err(DecErr::InvalidDigit) => return Err(
                String::from_str("invalid digit found in string"),
            ),
            Err(DecErr::TooLarge) => return Err(
                String::from_str("number too large to fit in target type"),
            ),
        };
        if v >= 0x1000 {
            return Err(String::from_str("value for argument too big!"));
        }
        if let Some(e) = check_trailing(&toks, 1) {
            return Err(e);
        }
        Ok(Some(Op::ComeFrom(v)))
    } else {
        Err(String::from_str("unknown opcode mnemonic: ").concat(m))
    }
}

/// The first error of a program, reported with its 1-based line number.
#[derive(Debug)]
pub struct AsmError {
    pub line: usize,
    pub msg: String,
}

/// The object bytes of the first `i` lines: each instruction-bearing line
/// contributes the two bytes of its encoded word, in program order.
pub open spec fn prog_bytes(lines: Seq<Seq<char>>, i: int) -> Seq<u8>
    decreases i,
{
    if i <= 0 {
        Seq::empty()
    } else {
        prog_bytes(lines, i - 1) + (match line_result(lines[i - 1]) {
            LineOut::Code(op) => word_bytes(encode_spec(op)),
            _ => Seq::empty(),
        })
    }
}

/// The instructions of the first `i` lines, in program order.
pub open spec fn prog_ops(lines: Seq<Seq<char>>, i: int) -> Seq<Op>
    decreases i,
{
    if i <= 0 {
        Seq::empty()
    } else {
        prog_ops(lines, i - 1) + (match line_result(lines[i - 1]) {
            LineOut::Code(op) => seq![op],
            _ => Seq::<Op>::empty(),
        })
    }
}

/// Every instruction a line denotes is legal.
pub proof fn lemma_line_result_wf(line: Seq<char>)
    ensures
        line_result(line) matches LineOut::Code(op) ==> wf(op),
{
}

/// The object image of the first `i` lines is exactly the encoded words of
/// their instructions, two bytes each.
proof fn lemma_prog_bytes_words(lines: Seq<Seq<char>>, i: int)
    requires
        0 <= i,
    ensures
        prog_bytes(lines, i).len() == 2 * prog_ops(lines, i).len(),
        forall|k: int| 0 <= k < prog_ops(lines, i).len() ==> wf(#[trigger] prog_ops(lines, i)[k]),
        words_of_bytes(prog_bytes(lines, i)) == prog_ops(lines, i).map_values(
            |op: Op| encode_spec(op),
        ),
    decreases i,
{
    if i <= 0 {
        assert(words_of_bytes(prog_bytes(lines, i)) =~= prog_ops(lines, i).map_values(
            |op: Op| encode_spec(op),
        ));
    } else {
        lemma_prog_bytes_words(lines, i - 1);
        match line_result(lines[i - 1]) {
            LineOut::Code(op) => {
                lemma_line_result_wf(lines[i - 1]);
                lemma_word_bytes_round_trip(encode_spec(op));
                let b0 = prog_bytes(lines, i - 1);
                let ops0 = prog_ops(lines, i - 1);
                let w = encode_spec(op);
                let b1 = prog_bytes(lines, i);
                let ops1 = prog_ops(lines, i);
                assert forall|k: int| 0 <= k < ops1.len() implies words_of_bytes(b1)[k]
                    == encode_spec(#[trigger] ops1[k]) by {
                    if k < ops0.len() {
                        assert(b1[2 * k] == b0[2 * k]);
                        assert(b1[2 * k + 1] == b0[2 * k + 1]);
                        assert(words_of_bytes(b0)[k] == encode_spec(ops0[k]));
                    } else {
                        assert(k == ops0.len());
                        assert(b1[2 * k] == word_bytes(w)[0]);
                        assert(b1[2 * k + 1] == word_bytes(w)[1]);
                    }
                }
                assert(words_of_bytes(b1) =~= ops1.map_values(|op: Op| encode_spec(op)));
            },
            LineOut::Blank => {
                assert(prog_bytes(lines, i) =~= prog_bytes(lines, i - 1));
                assert(prog_ops(lines, i) =~= prog_ops(lines, i - 1));
            },
            LineOut::Fail(_) => {
                assert(prog_bytes(lines, i) =~= prog_bytes(lines, i - 1));
                assert(prog_ops(lines, i) =~= prog_ops(lines, i - 1));
            },
        }
    }
}

/// The object format is self-consistent: loading the bytes that a program
/// assembles to yields words that decode, one for one, to exactly the
/// instructions its lines denote.
pub proof fn lemma_object_round_trip(lines: Seq<Seq<char>>)
    ensures
        words_of_bytes(prog_bytes(lines, lines.len() as int)).len() == prog_ops(
            lines,
            lines.len() as int,
        ).len(),
        forall|k: int|
            0 <= k < prog_ops(lines, lines.len() as int).len() ==> decode_spec(
                words_of_bytes(prog_bytes(lines, lines.len() as int))[k],
            ) == Some(#[trigger] prog_ops(lines, lines.len() as int)[k]),
{
    let n = lines.len() as int;
    lemma_prog_bytes_words(lines, n);
    assert forall|k: int| 0 <= k < prog_ops(lines, n).len() implies decode_spec(
        words_of_bytes(prog_bytes(lines, n))[k],
    ) == Some(#[trigger] prog_ops(lines, n)[k]) by {
        lemma_decode_encode(prog_ops(lines, n)[k]);
    }
}

/// Assemble a whole program, given as its source lines.  On success the
/// object bytes of every line, in order; otherwise the first violation,
/// with its 1-based line number, and no bytes at all.
pub fn assemble(lines: &Vec<String>) -> (r: Result<Vec<u8>, AsmError>)
    ensures
        r matches Ok(bytes) ==> (forall|j: int|
            0 <= j < lines@.len() ==> !(line_result(lines.deep_view()[j]) is Fail)) && bytes@
            == prog_bytes(lines.deep_view(), lines@.len() as int),
        r matches Err(e) ==> 1 <= e.line <= lines@.len() && (line_result(
            lines.deep_view()[e.line - 1],
        ) matches LineOut::Fail(ms) && e.msg@ == ms) && (forall|j: int|
            0 <= j < e.line - 1 ==> !(line_result(lines.deep_view()[j]) is Fail)),
        r is Err <==> exists|j: int|
            0 <= j < lines@.len() && line_result(lines.deep_view()[j]) is Fail,
{
    let mut out: Vec<u8> = Vec::new();
    let mut i: usize = 0;
    while i < lines.len()
        invariant
            i <= lines@.len(),
            out@ == prog_bytes(lines.deep_view(), i as int),
            forall|j: int| 0 <= j < i ==> !(line_result(lines.deep_view()[j]) is Fail),
        decreases lines@.len() - i,
    {
        let parsed = parse_line(lines[i].as_str());
        match parsed {
            Err(m) => {
                return Err(AsmError { line: i + 1, msg: m });
            },
            Ok(None) => {
                proof {
                    assert(prog_bytes(lines.deep_view(), i + 1) =~= out@);
                }
            },
            Ok(Some(op)) => {
                let w = encode(&op);
                let ghost before = out@;
                out.push((w >> 8) as u8);
                out.push((w & 0xFF) as u8);
                proof {
                    assert(out@ =~= before + word_bytes(w));
                    assert(prog_bytes(lines.deep_view(), i + 1) =~= before + word_bytes(
                        encode_spec(op),
                    ));
                }
            },
        }
        i = i + 1;
    }
    Ok(out)
}

} // verus!
