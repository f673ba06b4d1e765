use rschip8::opcode::{
    aXYb, aXbb, decode_opcode, first_nibble, last_nibble, nn_byte, nnn_word, x_nibble, y_nibble,
};
use rschip8::Chip8Op;

#[test]
fn test_first_nibble() {
    assert_eq!(first_nibble(0x1234), 0x1);
}

#[test]
fn test_x_nibble() {
    assert_eq!(x_nibble(0x1234), 0x2);
}

#[test]
fn decode_jump() {
    assert_eq!(decode_opcode(0x1456), Some(Chip8Op::Jump(0x0456)));
}

#[test]
fn test_remaining_fields() {
    assert_eq!(y_nibble(0x1234), 0x3);
    assert_eq!(last_nibble(0x1234), 0x4);
    assert_eq!(nn_byte(0x1234), 0x34);
    assert_eq!(nnn_word(0x1234), 0x234);
    assert_eq!(first_nibble(0xFFFF), 0xF);
    assert_eq!(x_nibble(0x0000), 0x0);
    assert_eq!(nnn_word(0xFFFF), 0xFFF);
}

#[test]
fn test_pattern_helpers() {
    assert!(aXYb(0x8AB4, 0x8, 0x4));
    assert!(!aXYb(0x8AB5, 0x8, 0x4));
    assert!(!aXYb(0x9AB4, 0x8, 0x4));
    assert!(aXbb(0xF355, 0xF, 0x55));
    assert!(!aXbb(0xF356, 0xF, 0x55));
    assert!(!aXbb(0xE355, 0xF, 0x55));
}

#[test]
fn decode_family_zero() {
    assert_eq!(decode_opcode(0x00E0), Some(Chip8Op::DisplayClear));
    assert_eq!(decode_opcode(0x00EE), Some(Chip8Op::Return));
    assert_eq!(decode_opcode(0x0000), None);
    assert_eq!(decode_opcode(0x00E1), None);
    assert_eq!(decode_opcode(0x01E0), None);
    assert_eq!(decode_opcode(0x0FFF), None);
}

#[test]
fn decode_addresses() {
    assert_eq!(decode_opcode(0x1000), Some(Chip8Op::Jump(0)));
    assert_eq!(decode_opcode(0x1FFF), Some(Chip8Op::Jump(0xFFF)));
    assert_eq!(decode_opcode(0x2ABC), Some(Chip8Op::Call(0xABC)));
    assert_eq!(decode_opcode(0xA123), Some(Chip8Op::SetMemoryAddress(0x123)));
    assert_eq!(decode_opcode(0xB00F), Some(Chip8Op::JumpPlus(0x00F)));
}

#[test]
fn decode_register_and_constant() {
    assert_eq!(decode_opcode(0x3A12), Some(Chip8Op::CmpEqualConst(0xA, 0x12)));
    assert_eq!(decode_opcode(0x4B00), Some(Chip8Op::CmpNotEqualConst(0xB, 0x00)));
    assert_eq!(decode_opcode(0x6CFF), Some(Chip8Op::SetRegConst(0xC, 0xFF)));
    assert_eq!(decode_opcode(0x7D01), Some(Chip8Op::AddConstReg(0xD, 0x01)));
    assert_eq!(decode_opcode(0xCE0F), Some(Chip8Op::Random(0xE, 0x0F)));
}

#[test]
fn decode_two_registers() {
    assert_eq!(decode_opcode(0x5120), Some(Chip8Op::CmpEqualReg(1, 2)));
    assert_eq!(decode_opcode(0x5121), None);
    assert_eq!(decode_opcode(0x9340), Some(Chip8Op::CmpNotEqualReg(3, 4)));
    assert_eq!(decode_opcode(0x934F), None);
    assert_eq!(decode_opcode(0xD125), Some(Chip8Op::DrawSprite(1, 2, 5)));
    assert_eq!(decode_opcode(0xDFF0), Some(Chip8Op::DrawSprite(0xF, 0xF, 0)));
}

#[test]
fn decode_arithmetic_family() {
    assert_eq!(decode_opcode(0x8AB0), Some(Chip8Op::SetRegReg(0xA, 0xB)));
    assert_eq!(decode_opcode(0x8AB1), Some(Chip8Op::BitOpOr(0xA, 0xB)));
    assert_eq!(decode_opcode(0x8AB2), Some(Chip8Op::BitOpAnd(0xA, 0xB)));
    assert_eq!(decode_opcode(0x8AB3), Some(Chip8Op::BitOpXor(0xA, 0xB)));
    assert_eq!(decode_opcode(0x8AB4), Some(Chip8Op::MathOpAdd(0xA, 0xB)));
    assert_eq!(decode_opcode(0x8AB5), Some(Chip8Op::MathOpSub(0xA, 0xB)));
    assert_eq!(decode_opcode(0x8AB6), Some(Chip8Op::BitOpShiftRight(0xA, 0xB)));
    assert_eq!(decode_opcode(0x8AB7), Some(Chip8Op::MathOpSubNeg(0xA, 0xB)));
    assert_eq!(decode_opcode(0x8ABE), Some(Chip8Op::BitOpShiftLeft(0xA, 0xB)));
    for n in 0x8..0xEu16 {
        assert_eq!(decode_opcode(0x8AB0 + n), None);
    }
    assert_eq!(decode_opcode(0x8ABF), None);
}

#[test]
fn decode_add_reg_for_every_pair() {
    for x in 0..16usize {
        for y in 0..16usize {
            let word = 0x8004 + ((x as u16) << 8) + ((y as u16) << 4);
            assert_eq!(decode_opcode(word), Some(Chip8Op::MathOpAdd(x, y)));
        }
    }
}

#[test]
fn decode_key_family() {
    assert_eq!(decode_opcode(0xE79E), Some(Chip8Op::KeyPressed(7)));
    assert_eq!(decode_opcode(0xE7A1), Some(Chip8Op::KeyNotPressed(7)));
    assert_eq!(decode_opcode(0xE79F), None);
    assert_eq!(decode_opcode(0xE000), None);
}

#[test]
fn decode_misc_family() {
    assert_eq!(decode_opcode(0xF207), Some(Chip8Op::GetDelay(2)));
    assert_eq!(decode_opcode(0xF20A), Some(Chip8Op::GetKey(2)));
    assert_eq!(decode_opcode(0xF215), Some(Chip8Op::SetDelay(2)));
    assert_eq!(decode_opcode(0xF218), Some(Chip8Op::SetSound(2)));
    assert_eq!(decode_opcode(0xF21E), Some(Chip8Op::AddMemoryAddress(2)));
    assert_eq!(decode_opcode(0xF229), Some(Chip8Op::GetSprite(2)));
    assert_eq!(decode_opcode(0xF233), Some(Chip8Op::BinaryCoding(2)));
    assert_eq!(decode_opcode(0xF255), Some(Chip8Op::RegisterDump(2)));
    assert_eq!(decode_opcode(0xF265), Some(Chip8Op::RegisterLoad(2)));
    assert_eq!(decode_opcode(0xF200), None);
    assert_eq!(decode_opcode(0xF2FF), None);
    assert_eq!(decode_opcode(0xF266), None);
}

#[test]
fn decode_counts_the_instruction_words() {
    let mut known = 0u32;
    for word in 0..=0xFFFFu16 {
        if decode_opcode(word).is_some() {
            known += 1;
        }
    }
    // Ten families take every word, families 5 and 9 one word in sixteen,
    // the arithmetic family nine in sixteen; two words of family 0, two low
    // bytes of family E and nine of family F.
    assert_eq!(known, 10 * 4096 + 2 * 256 + 9 * 256 + 2 + 2 * 16 + 9 * 16);
}
