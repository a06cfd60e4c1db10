use patata::opcode::OpCode;

#[test]
fn from_bytes() {
    let opcode = OpCode::from((0xDE, 0xAD));
    assert_eq!(0xDEAD, opcode.inner)
}

#[test]
fn nibbles() {
    let opcode = OpCode::from((0xDE, 0xAD));
    assert_eq!((0x0D, 0x0E, 0x0A, 0x0D), opcode.nibbles())
}

#[test]
fn nnn() {
    let opcode = OpCode::from((0xDE, 0xAD));
    assert_eq!(0x0EAD, opcode.nnn())
}

#[test]
fn kk() {
    let opcode = OpCode::from((0xDE, 0xAD));
    assert_eq!(0x00AD, opcode.kk())
}

#[test]
fn x() {
    let opcode = OpCode::from((0xDE, 0xAD));
    assert_eq!(0x0E, opcode.x())
}

#[test]
fn y() {
    let opcode = OpCode::from((0xDE, 0xAD));
    assert_eq!(0x0A, opcode.y())
}

#[test]
fn n() {
    let opcode = OpCode::from((0xBE, 0xAD));
    assert_eq!(0x0D, opcode.n())
}

#[test]
fn nibbles_recompose_to_word() {
    for hi in [0x00u8, 0x12, 0x7F, 0x80, 0xFF] {
        for lo in [0x00u8, 0x34, 0xA5, 0xFF] {
            let opcode = OpCode::from((hi, lo));
            let (a, b, c, d) = opcode.nibbles();
            let word = ((a as u16) << 12) | ((b as u16) << 8) | ((c as u16) << 4) | d as u16;
            assert_eq!(word, ((hi as u16) << 8) | lo as u16);
            assert_eq!(opcode.nnn(), word & 0x0FFF);
            assert_eq!(opcode.kk(), lo);
        }
    }
}
