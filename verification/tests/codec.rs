use rel::codec::decode;
use rel::codec::encode;
use rel::isa::Op;

fn round(op: Op) {
    let w = encode(&op);
    assert_eq!(decode(w), Some(op));
}

#[test]
fn codec_round_trip_every_shape() {
    round(Op::Halt);
    round(Op::Not(0));
    round(Op::RotateLeft(1));
    round(Op::RotateRight(15));
    round(Op::Increment(7));
    round(Op::Decrement(8));
    round(Op::Push(15));
    round(Op::Pop(0));
    round(Op::SwapBr(9));
    round(Op::RevSwapBr(10));
    round(Op::Swap(0, 15));
    round(Op::CNot(1, 2));
    round(Op::CAdd(14, 15));
    round(Op::CSub(3, 0));
    round(Op::Exchange(5, 6));
    round(Op::Immediate(0, 0));
    round(Op::Immediate(15, 255));
    round(Op::CCNot(1, 2, 3));
    round(Op::CSwap(13, 14, 15));
    round(Op::Branch(0));
    round(Op::Branch(255));
    round(Op::BrGEZ(4, 200));
    round(Op::BrLZ(5, 1));
    round(Op::BrEven(6, 2));
    round(Op::BrOdd(7, 3));
    round(Op::GoTo(0));
    round(Op::GoTo(4095));
    round(Op::ComeFrom(123));
}

#[test]
fn codec_known_words() {
    assert_eq!(encode(&Op::Halt), 0x0000);
    assert_eq!(encode(&Op::Immediate(0, 5)), 0x1005);
    assert_eq!(encode(&Op::CCNot(1, 2, 3)), 0x2123);
    assert_eq!(encode(&Op::CSwap(13, 14, 15)), 0x3DEF);
    assert_eq!(encode(&Op::GoTo(0xABC)), 0x4ABC);
    assert_eq!(encode(&Op::ComeFrom(1)), 0x5001);
    assert_eq!(encode(&Op::Branch(0xFF)), 0xA0FF);
    assert_eq!(encode(&Op::Swap(1, 2)), 0xB012);
    assert_eq!(encode(&Op::CNot(3, 4)), 0xB134);
    assert_eq!(encode(&Op::Not(5)), 0xC005);
    assert_eq!(encode(&Op::RevSwapBr(15)), 0xC08F);
}

#[test]
fn codec_rejects_unassigned_patterns() {
    assert_eq!(decode(0x0001), None);
    assert_eq!(decode(0x0FFF), None);
    assert_eq!(decode(0xA100), None);
    assert_eq!(decode(0xB500), None);
    assert_eq!(decode(0xBFFF), None);
    assert_eq!(decode(0xC090), None);
    assert_eq!(decode(0xCFFF), None);
    assert_eq!(decode(0xD000), None);
    assert_eq!(decode(0xE123), None);
    assert_eq!(decode(0xFFFF), None);
}
