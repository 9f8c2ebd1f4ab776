use rel::assembler::assemble;
use rel::assembler::parse_byte;
use rel::assembler::parse_line;
use rel::assembler::parse_reglit;
use rel::isa::Op;

fn lines(src: &[&str]) -> Vec<String> {
    src.iter().map(|s| s.to_string()).collect()
}

#[test]
fn reglit_accepts_valid_indices() {
    assert_eq!(parse_reglit("r0").unwrap(), 0);
    assert_eq!(parse_reglit("r9").unwrap(), 9);
    assert_eq!(parse_reglit("r15").unwrap(), 15);
}

#[test]
fn reglit_rejects_bad_literals() {
    assert_eq!(parse_reglit("r16").unwrap_err(), "index for register too big!");
    assert_eq!(parse_reglit("r99").unwrap_err(), "index for register too big!");
    assert_eq!(parse_reglit("rX").unwrap_err(), "invalid digit found in string");
    assert_eq!(parse_reglit("x0").unwrap_err(), "expected register literal, found x0");
    assert_eq!(parse_reglit("").unwrap_err(), "expected register literal, found ");
}

#[test]
fn bad_register_literals_abort_assembly() {
    assert!(assemble(&lines(&["not r16"])).is_err());
    assert!(assemble(&lines(&["not r99"])).is_err());
    assert!(assemble(&lines(&["not rX"])).is_err());
}

#[test]
fn byte_values_parse_exactly() {
    assert_eq!(parse_byte("0").unwrap(), 0);
    assert_eq!(parse_byte("255").unwrap(), 255);
    assert_eq!(parse_byte("007").unwrap(), 7);
    assert_eq!(parse_byte("256").unwrap_err(), "number too large to fit in target type");
    assert_eq!(parse_byte("").unwrap_err(), "invalid digit found in string");
    assert_eq!(parse_byte("12x").unwrap_err(), "invalid digit found in string");
}

#[test]
fn cnot_rejects_equal_registers() {
    let e = assemble(&lines(&["cnot r0 r0"])).unwrap_err();
    assert_eq!(e.line, 1);
    assert_eq!(e.msg, "can't use the same register in cnot");
}

#[test]
fn swap_accepts_equal_registers() {
    let bytes = assemble(&lines(&["swp r0 r0", "halt"])).unwrap();
    assert_eq!(bytes.len(), 4);
}

#[test]
fn object_bytes_are_big_endian_words() {
    let bytes = assemble(&lines(&["imm r0 5", "halt"])).unwrap();
    assert_eq!(bytes, vec![0x10, 0x05, 0x00, 0x00]);
}

#[test]
fn comments_and_blank_lines_emit_nothing() {
    let bytes = assemble(&lines(&["", "   ", "# note", "; note", "  halt # stop"])).unwrap();
    assert_eq!(bytes, vec![0x00, 0x00]);
}

#[test]
fn comment_may_touch_a_token() {
    let bytes = assemble(&lines(&["halt# stop"])).unwrap();
    assert_eq!(bytes, vec![0x00, 0x00]);
}

#[test]
fn trailing_token_is_an_error() {
    let e = assemble(&lines(&["halt foo"])).unwrap_err();
    assert_eq!(e.line, 1);
    assert_eq!(e.msg, "expected comment or line break, found foo");
}

#[test]
fn unknown_mnemonic_names_the_token() {
    let e = assemble(&lines(&["frobnicate 1"])).unwrap_err();
    assert_eq!(e.msg, "unknown opcode mnemonic: frobnicate");
}

#[test]
fn goto_address_range() {
    let bytes = assemble(&lines(&["goto 4095"])).unwrap();
    assert_eq!(bytes, vec![0x4F, 0xFF]);
    assert_eq!(assemble(&lines(&["goto 4096"])).unwrap_err().msg, "value for argument too big!");
    assert_eq!(
        assemble(&lines(&["goto 70000"])).unwrap_err().msg,
        "number too large to fit in target type"
    );
    assert_eq!(assemble(&lines(&["goto"])).unwrap_err().msg, "address argument not found");
}

#[test]
fn imm_operand_errors() {
    assert_eq!(assemble(&lines(&["imm r0"])).unwrap_err().msg, "no value for lit instruction given");
    assert_eq!(
        assemble(&lines(&["imm r0 256"])).unwrap_err().msg,
        "number too large to fit in target type"
    );
}

#[test]
fn missing_register_reported() {
    assert_eq!(assemble(&lines(&["cnot r0"])).unwrap_err().msg, "register argument not found");
    assert_eq!(assemble(&lines(&["not"])).unwrap_err().msg, "register argument not found");
}

#[test]
fn first_error_gets_its_line_number() {
    let e = assemble(&lines(&["halt", "", "cnot r1 r1"])).unwrap_err();
    assert_eq!(e.line, 3);
}

#[test]
fn operand_error_beats_trailing_token() {
    let e = assemble(&lines(&["not r99 extra"])).unwrap_err();
    assert_eq!(e.msg, "index for register too big!");
}

#[test]
fn toffoli_distinctness() {
    assert_eq!(
        assemble(&lines(&["toff r0 r1 r0"])).unwrap_err().msg,
        "controlled argument used in mutable argument"
    );
    assert_eq!(
        assemble(&lines(&["toff r0 r1 r1"])).unwrap_err().msg,
        "controlled argument used in mutable argument"
    );
    assert!(assemble(&lines(&["toff r0 r1 r2"])).is_ok());
    assert!(assemble(&lines(&["ccnot r0 r0 r2"])).is_ok());
}

#[test]
fn fredkin_distinctness() {
    assert_eq!(
        assemble(&lines(&["fredk r0 r0 r1"])).unwrap_err().msg,
        "controlled argument used in mutable argument"
    );
    assert_eq!(
        assemble(&lines(&["fredk r0 r1 r0"])).unwrap_err().msg,
        "controlled argument used in mutable argument"
    );
    assert!(assemble(&lines(&["fredk r0 r1 r2"])).is_ok());
    assert!(assemble(&lines(&["cswp r0 r1 r1"])).is_ok());
}

#[test]
fn parse_line_classifies() {
    assert_eq!(parse_line("").unwrap(), None);
    assert_eq!(parse_line("  ; nothing").unwrap(), None);
    assert_eq!(parse_line("rotl r3").unwrap(), Some(Op::RotateLeft(3)));
    assert_eq!(parse_line("exch r2 r10").unwrap(), Some(Op::Exchange(2, 10)));
    assert_eq!(parse_line("cmfr 7").unwrap(), Some(Op::ComeFrom(7)));
    assert!(parse_line("push").is_err());
}
