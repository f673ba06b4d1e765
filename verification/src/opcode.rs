//! Instruction words and their decoding.
//!
//! An instruction word is sixteen bits wide. Its four nibbles are named, from
//! the most significant one down, the family selector, `x`, `y` and `n`; the
//! low byte is `nn` and the low twelve bits are `nnn`.

use vstd::prelude::*;

verus! {

/// One instruction of the machine, with its operands.
///
/// Register operands are indices into the sixteen general registers,
/// addresses are twelve-bit memory addresses.
#[derive(Debug, PartialEq, Eq, Clone, Copy)]
pub enum Chip8Op {
    /// `00E0`: turn every display cell off.
    DisplayClear,
    /// `00EE`: return from a subroutine.
    Return,
    /// `1nnn`: continue at `nnn`.
    Jump(usize),
    /// `2nnn`: call the subroutine at `nnn`.
    Call(usize),
    /// `3xnn`: skip the next instruction if register `x` equals `nn`.
    CmpEqualConst(usize, u8),
    /// `4xnn`: skip the next instruction if register `x` differs from `nn`.
    CmpNotEqualConst(usize, u8),
    /// `5xy0`: skip the next instruction if registers `x` and `y` are equal.
    CmpEqualReg(usize, usize),
    /// `6xnn`: register `x` becomes `nn`.
    SetRegConst(usize, u8),
    /// `7xnn`: add `nn` to register `x`, wrapping, flag untouched.
    AddConstReg(usize, u8),
    /// `8xy0`: register `x` becomes register `y`.
    SetRegReg(usize, usize),
    /// `8xy1`: register `x` becomes `x | y`.
    BitOpOr(usize, usize),
    /// `8xy2`: register `x` becomes `x & y`.
    BitOpAnd(usize, usize),
    /// `8xy3`: register `x` becomes `x ^ y`.
    BitOpXor(usize, usize),
    /// `8xy4`: register `x` becomes `x + y`, the flag register the carry.
    MathOpAdd(usize, usize),
    /// `8xy5`: register `x` becomes `x - y`, the flag register "no borrow".
    MathOpSub(usize, usize),
    /// `8xy6`: registers `x` and `y` become `y >> 1`, the flag the bit shifted out.
    BitOpShiftRight(usize, usize),
    /// `8xy7`: register `x` becomes `y - x`, the flag register "no borrow".
    MathOpSubNeg(usize, usize),
    /// `8xyE`: registers `x` and `y` become `y << 1`, the flag `y & 0x80`.
    BitOpShiftLeft(usize, usize),
    /// `9xy0`: skip the next instruction if registers `x` and `y` differ.
    CmpNotEqualReg(usize, usize),
    /// `Annn`: the memory-address register becomes `nnn`.
    SetMemoryAddress(usize),
    /// `Bnnn`: continue at `nnn` plus register 0.
    JumpPlus(usize),
    /// `Cxnn`: register `x` becomes a random byte masked with `nn`.
    Random(usize, u8),
    /// `Dxyn`: draw an `n`-row sprite at the position held in registers `x`, `y`.
    DrawSprite(usize, usize, u8),
    /// `Ex9E`: skip the next instruction if the key named by register `x` is pressed.
    KeyPressed(usize),
    /// `ExA1`: skip the next instruction if the key named by register `x` is not pressed.
    KeyNotPressed(usize),
    /// `Fx07`: register `x` becomes the delay timer.
    GetDelay(usize),
    /// `Fx0A`: wait for a key and store it in register `x`.
    GetKey(usize),
    /// `Fx15`: the delay timer becomes register `x`.
    SetDelay(usize),
    /// `Fx18`: the sound timer becomes register `x`.
    SetSound(usize),
    /// `Fx1E`: add register `x` to the memory-address register.
    AddMemoryAddress(usize),
    /// `Fx29`: the memory-address register points at the glyph for register `x`.
    GetSprite(usize),
    /// `Fx33`: store the three decimal digits of register `x`.
    BinaryCoding(usize),
    /// `Fx55`: store registers `0..=x` to memory.
    RegisterDump(usize),
    /// `Fx65`: load registers `0..=x` from memory.
    RegisterLoad(usize),
}

impl Chip8Op {
    /// Register operands name one of the sixteen registers, addresses fit in
    /// twelve bits and a sprite has at most fifteen rows.
    pub open spec fn wf(self) -> bool {
        match self {
            Chip8Op::DisplayClear | Chip8Op::Return => true,
            Chip8Op::Jump(a)
            | Chip8Op::Call(a)
            | Chip8Op::SetMemoryAddress(a)
            | Chip8Op::JumpPlus(a) => a < 0x1000,
            Chip8Op::CmpEqualConst(x, _)
            | Chip8Op::CmpNotEqualConst(x, _)
            | Chip8Op::SetRegConst(x, _)
            | Chip8Op::AddConstReg(x, _)
            | Chip8Op::Random(x, _) => x < 16,
            Chip8Op::CmpEqualReg(x, y)
            | Chip8Op::SetRegReg(x, y)
            | Chip8Op::BitOpOr(x, y)
            | Chip8Op::BitOpAnd(x, y)
            | Chip8Op::BitOpXor(x, y)
            | Chip8Op::MathOpAdd(x, y)
            | Chip8Op::MathOpSub(x, y)
            | Chip8Op::BitOpShiftRight(x, y)
            | Chip8Op::MathOpSubNeg(x, y)
            | Chip8Op::BitOpShiftLeft(x, y)
            | Chip8Op::CmpNotEqualReg(x, y) => x < 16 && y < 16,
            Chip8Op::DrawSprite(x, y, h) => x < 16 && y < 16 && h < 16,
            Chip8Op::KeyPressed(x)
            | Chip8Op::KeyNotPressed(x)
            | Chip8Op::GetDelay(x)
            | Chip8Op::GetKey(x)
            | Chip8Op::SetDelay(x)
            | Chip8Op::SetSound(x)
            | Chip8Op::AddMemoryAddress(x)
            | Chip8Op::GetSprite(x)
            | Chip8Op::BinaryCoding(x)
            | Chip8Op::RegisterDump(x)
            | Chip8Op::RegisterLoad(x) => x < 16,
        }
    }
}

/// Bits 15 to 12 of an instruction word: the family selector.
pub open spec fn spec_first_nibble(opcode: u16) -> u8 {
    (opcode / 0x1000) as u8
}

/// Bits 11 to 8 of an instruction word: the register operand `x`.
pub open spec fn spec_x_nibble(opcode: u16) -> u8 {
    ((opcode / 0x100) % 0x10) as u8
}

/// Bits 7 to 4 of an instruction word: the register operand `y`.
pub open spec fn spec_y_nibble(opcode: u16) -> u8 {
    ((opcode / 0x10) % 0x10) as u8
}

/// Bits 3 to 0 of an instruction word: a sprite height or a discriminator.
pub open spec fn spec_last_nibble(opcode: u16) -> u8 {
    (opcode % 0x10) as u8
}

/// Bits 7 to 0 of an instruction word: the immediate `nn`.
pub open spec fn spec_nn_byte(opcode: u16) -> u8 {
    (opcode % 0x100) as u8
}

/// Bits 11 to 0 of an instruction word: the address `nnn`.
pub open spec fn spec_nnn_word(opcode: u16) -> u16 {
    opcode % 0x1000
}

/// The instruction that a word of family 8 stands for, chosen by its last nibble.
pub open spec fn spec_decode_arith(x: usize, y: usize, n: u8) -> Option<Chip8Op> {
    if n == 0x0 {
        Some(Chip8Op::SetRegReg(x, y))
    } else if n == 0x1 {
        Some(Chip8Op::BitOpOr(x, y))
    } else if n == 0x2 {
        Some(Chip8Op::BitOpAnd(x, y))
    } else if n == 0x3 {
        Some(Chip8Op::BitOpXor(x, y))
    } else if n == 0x4 {
        Some(Chip8Op::MathOpAdd(x, y))
    } else if n == 0x5 {
        Some(Chip8Op::MathOpSub(x, y))
    } else if n == 0x6 {
        Some(Chip8Op::BitOpShiftRight(x, y))
    } else if n == 0x7 {
        Some(Chip8Op::MathOpSubNeg(x, y))
    } else if n == 0xE {
        Some(Chip8Op::BitOpShiftLeft(x, y))
    } else {
        None
    }
}

/// The instruction that a word of family F stands for, chosen by its low byte.
pub open spec fn spec_decode_misc(x: usize, nn: u8) -> Option<Chip8Op> {
    if nn == 0x07 {
        Some(Chip8Op::GetDelay(x))
    } else if nn == 0x0A {
        Some(Chip8Op::GetKey(x))
    } else if nn == 0x15 {
        Some(Chip8Op::SetDelay(x))
    } else if nn == 0x18 {
        Some(Chip8Op::SetSound(x))
    } else if nn == 0x1E {
        Some(Chip8Op::AddMemoryAddress(x))
    } else if nn == 0x29 {
        Some(Chip8Op::GetSprite(x))
    } else if nn == 0x33 {
        Some(Chip8Op::BinaryCoding(x))
    } else if nn == 0x55 {
        Some(Chip8Op::RegisterDump(x))
    } else if nn == 0x65 {
        Some(Chip8Op::RegisterLoad(x))
    } else {
        None
    }
}

/// The instruction that a word stands for, or `None` where the word matches
/// no instruction pattern.
pub open spec fn spec_decode(opcode: u16) -> Option<Chip8Op> {
    let a = spec_first_nibble(opcode);
    let x = spec_x_nibble(opcode) as usize;
    let y = spec_y_nibble(opcode) as usize;
    let n = spec_last_nibble(opcode);
    let nn = spec_nn_byte(opcode);
    let nnn = spec_nnn_word(opcode) as usize;
    if a == 0x0 {
        if opcode == 0x00E0 {
            Some(Chip8Op::DisplayClear)
        } else if opcode == 0x00EE {
            Some(Chip8Op::Return)
        } else {
            None
        }
    } else if a == 0x1 {
        Some(Chip8Op::Jump(nnn))
    } else if a == 0x2 {
        Some(Chip8Op::Call(nnn))
    } else if a == 0x3 {
        Some(Chip8Op::CmpEqualConst(x, nn))
    } else if a == 0x4 {
        Some(Chip8Op::CmpNotEqualConst(x, nn))
    } else if a == 0x5 {
        if n == 0x0 {
            Some(Chip8Op::CmpEqualReg(x, y))
        } else {
            None
        }
    } else if a == 0x6 {
        Some(Chip8Op::SetRegConst(x, nn))
    } else if a == 0x7 {
        Some(Chip8Op::AddConstReg(x, nn))
    } else if a == 0x8 {
        spec_decode_arith(x, y, n)
    } else if a == 0x9 {
        if n == 0x0 {
            Some(Chip8Op::CmpNotEqualReg(x, y))
        } else {
            None
        }
    } else if a == 0xA {
        Some(Chip8Op::SetMemoryAddress(nnn))
    } else if a == 0xB {
        Some(Chip8Op::JumpPlus(nnn))
    } else if a == 0xC {
        Some(Chip8Op::Random(x, nn))
    } else if a == 0xD {
        Some(Chip8Op::DrawSprite(x, y, n))
    } else if a == 0xE {
        if nn == 0x9E {
            Some(Chip8Op::KeyPressed(x))
        } else if nn == 0xA1 {
            Some(Chip8Op::KeyNotPressed(x))
        } else {
            None
        }
    } else {
        spec_decode_misc(x, nn)
    }
}

/// The instruction word that stands for `op`.
pub open spec fn spec_encode(op: Chip8Op) -> u16 {
    match op {
        Chip8Op::DisplayClear => 0x00E0,
        Chip8Op::Return => 0x00EE,
        Chip8Op::Jump(a) => (0x1000 + a) as u16,
        Chip8Op::Call(a) => (0x2000 + a) as u16,
        Chip8Op::CmpEqualConst(x, c) => (0x3000 + 0x100 * x + c) as u16,
        Chip8Op::CmpNotEqualConst(x, c) => (0x4000 + 0x100 * x + c) as u16,
        Chip8Op::CmpEqualReg(x, y) => (0x5000 + 0x100 * x + 0x10 * y) as u16,
        Chip8Op::SetRegConst(x, c) => (0x6000 + 0x100 * x + c) as u16,
        Chip8Op::AddConstReg(x, c) => (0x7000 + 0x100 * x + c) as u16,
        Chip8Op::SetRegReg(x, y) => (0x8000 + 0x100 * x + 0x10 * y) as u16,
        Chip8Op::BitOpOr(x, y) => (0x8001 + 0x100 * x + 0x10 * y) as u16,
        Chip8Op::BitOpAnd(x, y) => (0x8002 + 0x100 * x + 0x10 * y) as u16,
        Chip8Op::BitOpXor(x, y) => (0x8003 + 0x100 * x + 0x10 * y) as u16,
        Chip8Op::MathOpAdd(x, y) => (0x8004 + 0x100 * x + 0x10 * y) as u16,
        Chip8Op::MathOpSub(x, y) => (0x8005 + 0x100 * x + 0x10 * y) as u16,
        Chip8Op::BitOpShiftRight(x, y) => (0x8006 + 0x100 * x + 0x10 * y) as u16,
        Chip8Op::MathOpSubNeg(x, y) => (0x8007 + 0x100 * x + 0x10 * y) as u16,
        Chip8Op::BitOpShiftLeft(x, y) => (0x800E + 0x100 * x + 0x10 * y) as u16,
        Chip8Op::CmpNotEqualReg(x, y) => (0x9000 + 0x100 * x + 0x10 * y) as u16,
        Chip8Op::SetMemoryAddress(a) => (0xA000 + a) as u16,
        Chip8Op::JumpPlus(a) => (0xB000 + a) as u16,
        Chip8Op::Random(x, c) => (0xC000 + 0x100 * x + c) as u16,
        Chip8Op::DrawSprite(x, y, h) => (0xD000 + 0x100 * x + 0x10 * y + h) as u16,
        Chip8Op::KeyPressed(x) => (0xE09E + 0x100 * x) as u16,
        Chip8Op::KeyNotPressed(x) => (0xE0A1 + 0x100 * x) as u16,
        Chip8Op::GetDelay(x) => (0xF007 + 0x100 * x) as u16,
        Chip8Op::GetKey(x) => (0xF00A + 0x100 * x) as u16,
        Chip8Op::SetDelay(x) => (0xF015 + 0x100 * x) as u16,
        Chip8Op::SetSound(x) => (0xF018 + 0x100 * x) as u16,
        Chip8Op::AddMemoryAddress(x) => (0xF01E + 0x100 * x) as u16,
        Chip8Op::GetSprite(x) => (0xF029 + 0x100 * x) as u16,
        Chip8Op::BinaryCoding(x) => (0xF033 + 0x100 * x) as u16,
        Chip8Op::RegisterDump(x) => (0xF055 + 0x100 * x) as u16,
        Chip8Op::RegisterLoad(x) => (0xF065 + 0x100 * x) as u16,
    }
}

/// Every instruction has a word: the word written out from the instruction
/// and its operands decodes to that instruction.
pub proof fn lemma_decode_encode(op: Chip8Op)
    requires
        op.wf(),
    ensures
        spec_decode(spec_encode(op)) == Some(op),
{
    match op {
        Chip8Op::DisplayClear => lemma_word_fields(0x0, 0x0, 0xE, 0x0),
        Chip8Op::Return => lemma_word_fields(0x0, 0x0, 0xE, 0xE),
        Chip8Op::Jump(a) => lemma_word_address(0x1, a as int),
        Chip8Op::Call(a) => lemma_word_address(0x2, a as int),
        Chip8Op::CmpEqualConst(x, c) => lemma_word_immediate(0x3, x as int, c as int),
        Chip8Op::CmpNotEqualConst(x, c) => lemma_word_immediate(0x4, x as int, c as int),
        Chip8Op::CmpEqualReg(x, y) => lemma_word_fields(0x5, x as int, y as int, 0x0),
        Chip8Op::SetRegConst(x, c) => lemma_word_immediate(0x6, x as int, c as int),
        Chip8Op::AddConstReg(x, c) => lemma_word_immediate(0x7, x as int, c as int),
        Chip8Op::SetRegReg(x, y) => lemma_word_fields(0x8, x as int, y as int, 0x0),
        Chip8Op::BitOpOr(x, y) => lemma_word_fields(0x8, x as int, y as int, 0x1),
        Chip8Op::BitOpAnd(x, y) => lemma_word_fields(0x8, x as int, y as int, 0x2),
        Chip8Op::BitOpXor(x, y) => lemma_word_fields(0x8, x as int, y as int, 0x3),
        Chip8Op::MathOpAdd(x, y) => lemma_word_fields(0x8, x as int, y as int, 0x4),
        Chip8Op::MathOpSub(x, y) => lemma_word_fields(0x8, x as int, y as int, 0x5),
        Chip8Op::BitOpShiftRight(x, y) => lemma_word_fields(0x8, x as int, y as int, 0x6),
        Chip8Op::MathOpSubNeg(x, y) => lemma_word_fields(0x8, x as int, y as int, 0x7),
        Chip8Op::BitOpShiftLeft(x, y) => lemma_word_fields(0x8, x as int, y as int, 0xE),
        Chip8Op::CmpNotEqualReg(x, y) => lemma_word_fields(0x9, x as int, y as int, 0x0),
        Chip8Op::SetMemoryAddress(a) => lemma_word_address(0xA, a as int),
        Chip8Op::JumpPlus(a) => lemma_word_address(0xB, a as int),
        Chip8Op::Random(x, c) => lemma_word_immediate(0xC, x as int, c as int),
        Chip8Op::DrawSprite(x, y, h) => lemma_word_fields(0xD, x as int, y as int, h as int),
        Chip8Op::KeyPressed(x) => lemma_word_immediate(0xE, x as int, 0x9E),
        Chip8Op::KeyNotPressed(x) => lemma_word_immediate(0xE, x as int, 0xA1),
        Chip8Op::GetDelay(x) => lemma_word_immediate(0xF, x as int, 0x07),
        Chip8Op::GetKey(x) => lemma_word_immediate(0xF, x as int, 0x0A),
        Chip8Op::SetDelay(x) => lemma_word_immediate(0xF, x as int, 0x15),
        Chip8Op::SetSound(x) => lemma_word_immediate(0xF, x as int, 0x18),
        Chip8Op::AddMemoryAddress(x) => lemma_word_immediate(0xF, x as int, 0x1E),
        Chip8Op::GetSprite(x) => lemma_word_immediate(0xF, x as int, 0x29),
        Chip8Op::BinaryCoding(x) => lemma_word_immediate(0xF, x as int, 0x33),
        Chip8Op::RegisterDump(x) => lemma_word_immediate(0xF, x as int, 0x55),
        Chip8Op::RegisterLoad(x) => lemma_word_immediate(0xF, x as int, 0x65),
    }
}

/// The fields of the word made of a selector and an address.
proof fn lemma_word_address(a: int, nnn: int)
    requires
        0 <= a < 16,
        0 <= nnn < 0x1000,
    ensures
        ({
            let w = (0x1000 * a + nnn) as u16;
            &&& w == 0x1000 * a + nnn
            &&& spec_first_nibble(w) == a
            &&& spec_nnn_word(w) == nnn
        }),
{
    vstd::arithmetic::div_mod::lemma_fundamental_div_mod_converse(0x1000 * a + nnn, 0x1000, a, nnn);
}

/// The fields of the word made of a selector, a register and an immediate.
proof fn lemma_word_immediate(a: int, x: int, nn: int)
    requires
        0 <= a < 16,
        0 <= x < 16,
        0 <= nn < 0x100,
    ensures
        ({
            let w = (0x1000 * a + 0x100 * x + nn) as u16;
            &&& w == 0x1000 * a + 0x100 * x + nn
            &&& spec_first_nibble(w) == a
            &&& spec_x_nibble(w) == x
            &&& spec_nn_byte(w) == nn
        }),
{
    let w = 0x1000 * a + 0x100 * x + nn;
    vstd::arithmetic::div_mod::lemma_fundamental_div_mod_converse(w, 0x1000, a, 0x100 * x + nn);
    vstd::arithmetic::div_mod::lemma_fundamental_div_mod_converse(w, 0x100, 0x10 * a + x, nn);
    vstd::arithmetic::div_mod::lemma_fundamental_div_mod_converse(0x10 * a + x, 0x10, a, x);
}

/// The fields of the word made of four nibbles.
proof fn lemma_word_fields(a: int, x: int, y: int, n: int)
    requires
        0 <= a < 16,
        0 <= x < 16,
        0 <= y < 16,
        0 <= n < 16,
    ensures
        ({
            let w = (0x1000 * a + 0x100 * x + 0x10 * y + n) as u16;
            &&& w == 0x1000 * a + 0x100 * x + 0x10 * y + n
            &&& spec_first_nibble(w) == a
            &&& spec_x_nibble(w) == x
            &&& spec_y_nibble(w) == y
            &&& spec_last_nibble(w) == n
            &&& spec_nn_byte(w) == 0x10 * y + n
        }),
{
    let w = 0x1000 * a + 0x100 * x + 0x10 * y + n;
    vstd::arithmetic::div_mod::lemma_fundamental_div_mod_converse(
        w,
        0x1000,
        a,
        0x100 * x + 0x10 * y + n,
    );
    vstd::arithmetic::div_mod::lemma_fundamental_div_mod_converse(
        w,
        0x100,
        0x10 * a + x,
        0x10 * y + n,
    );
    vstd::arithmetic::div_mod::lemma_fundamental_div_mod_converse(0x10 * a + x, 0x10, a, x);
    vstd::arithmetic::div_mod::lemma_fundamental_div_mod_converse(
        w,
        0x10,
        0x100 * a + 0x10 * x + y,
        n,
    );
    vstd::arithmetic::div_mod::lemma_fundamental_div_mod_converse(
        0x100 * a + 0x10 * x + y,
        0x10,
        0x10 * a + x,
        y,
    );
}

/// No instruction has two words: a word that decodes to an instruction is the
/// word written out from it.
pub proof fn lemma_encode_decode(opcode: u16)
    ensures
        spec_decode(opcode) matches Some(op) ==> spec_encode(op) == opcode,
{
    lemma_nibbles_compose(opcode);
}

/// Extracts the register operand `x` of an instruction word.
pub fn x_nibble(opcode: u16) -> (x: u8)
    ensures
        x == spec_x_nibble(opcode),
        x < 16,
{
    let bits: u16 = (opcode & 0x0F00) >> 8;
    assert(bits == (opcode / 0x100) % 0x10) by (bit_vector)
        requires
            bits == (opcode & 0x0F00) >> 8,
    ;
    bits as u8
}

/// Extracts the register operand `y` of an instruction word.
pub fn y_nibble(opcode: u16) -> (y: u8)
    ensures
        y == spec_y_nibble(opcode),
        y < 16,
{
    let bits: u16 = (opcode & 0x00F0) >> 4;
    assert(bits == (opcode / 0x10) % 0x10) by (bit_vector)
        requires
            bits == (opcode & 0x00F0) >> 4,
    ;
    bits as u8
}

/// Extracts the immediate `nn` of an instruction word.
pub fn nn_byte(opcode: u16) -> (nn: u8)
    ensures
        nn == spec_nn_byte(opcode),
{
    let bits: u16 = opcode & 0x00FF;
    assert(bits == opcode % 0x100) by (bit_vector)
        requires
            bits == opcode & 0x00FF,
    ;
    bits as u8
}

/// Extracts the address `nnn` of an instruction word.
pub fn nnn_word(opcode: u16) -> (nnn: u16)
    ensures
        nnn == spec_nnn_word(opcode),
        nnn < 0x1000,
{
    let bits: u16 = opcode & 0x0FFF;
    assert(bits == opcode % 0x1000) by (bit_vector)
        requires
            bits == opcode & 0x0FFF,
    ;
    bits
}

/// Extracts the family selector of an instruction word.
pub fn first_nibble(opcode: u16) -> (a: u8)
    ensures
        a == spec_first_nibble(opcode),
        a < 16,
{
    let bits: u16 = opcode >> 12;
    assert(bits == opcode / 0x1000) by (bit_vector)
        requires
            bits == opcode >> 12,
    ;
    bits as u8
}

/// Extracts the last nibble of an instruction word.
pub fn last_nibble(opcode: u16) -> (n: u8)
    ensures
        n == spec_last_nibble(opcode),
        n < 16,
{
    let bits: u16 = opcode & 0x000F;
    assert(bits == opcode % 0x10) by (bit_vector)
        requires
            bits == opcode & 0x000F,
    ;
    bits as u8
}

/// Tells whether a word has family selector `a` and last nibble `b`.
#[allow(non_snake_case)]
pub fn aXYb(opcode: u16, a: u8, b: u8) -> (hit: bool)
    ensures
        hit == (spec_first_nibble(opcode) == a && spec_last_nibble(opcode) == b),
{
    first_nibble(opcode) == a && last_nibble(opcode) == b
}

/// Tells whether a word has family selector `a` and low byte `b`.
#[allow(non_snake_case)]
pub fn aXbb(opcode: u16, a: u8, b: u8) -> (hit: bool)
    ensures
        hit == (spec_first_nibble(opcode) == a && spec_nn_byte(opcode) == b),
{
    first_nibble(opcode) == a && nn_byte(opcode) == b
}

/// Every decoded instruction has operands in range.
pub proof fn lemma_decode_wf(opcode: u16)
    ensures
        spec_decode(opcode) matches Some(op) ==> op.wf(),
{
}

/// A word is put together from its fields: selector and `nnn`, `x` and `nn`,
/// `y` and the last nibble.
proof fn lemma_nibbles_compose(opcode: u16)
    ensures
        opcode == spec_first_nibble(opcode) * 0x1000 + spec_nnn_word(opcode),
        spec_nnn_word(opcode) == spec_x_nibble(opcode) * 0x100 + spec_nn_byte(opcode),
        spec_nn_byte(opcode) == spec_y_nibble(opcode) * 0x10 + spec_last_nibble(opcode),
{
}

/// Decodes an instruction word.
///
/// Returns `None` exactly for the words that match no instruction pattern.
pub fn decode_opcode(opcode: u16) -> (op: Option<Chip8Op>)
    ensures
        op == spec_decode(opcode),
        op matches Some(o) ==> o.wf(),
{
    let x = x_nibble(opcode) as usize;
    let y = y_nibble(opcode) as usize;
    let word = nnn_word(opcode) as usize;
    proof {
        lemma_nibbles_compose(opcode);
    }
    match opcode {
        0x00E0 => Some(Chip8Op::DisplayClear),
        0x00EE => Some(Chip8Op::Return),
        o if first_nibble(o) == 0x1 => Some(Chip8Op::Jump(word)),
        o if first_nibble(o) == 0x2 => Some(Chip8Op::Call(word)),
        o if first_nibble(o) == 0x3 => Some(Chip8Op::CmpEqualConst(x, nn_byte(o))),
        o if first_nibble(o) == 0x4 => Some(Chip8Op::CmpNotEqualConst(x, nn_byte(o))),
        o if aXYb(o, 0x5, 0x0) => Some(Chip8Op::CmpEqualReg(x, y)),
        o if first_nibble(o) == 0x6 => Some(Chip8Op::SetRegConst(x, nn_byte(o))),
        o if first_nibble(o) == 0x7 => Some(Chip8Op::AddConstReg(x, nn_byte(o))),
        o if aXYb(o, 0x8, 0x0) => Some(Chip8Op::SetRegReg(x, y)),
        o if aXYb(o, 0x8, 0x1) => Some(Chip8Op::BitOpOr(x, y)),
        o if aXYb(o, 0x8, 0x2) => Some(Chip8Op::BitOpAnd(x, y)),
        o if aXYb(o, 0x8, 0x3) => Some(Chip8Op::BitOpXor(x, y)),
        o if aXYb(o, 0x8, 0x4) => Some(Chip8Op::MathOpAdd(x, y)),
        o if aXYb(o, 0x8, 0x5) => Some(Chip8Op::MathOpSub(x, y)),
        o if aXYb(o, 0x8, 0x6) => Some(Chip8Op::BitOpShiftRight(x, y)),
        o if aXYb(o, 0x8, 0x7) => Some(Chip8Op::MathOpSubNeg(x, y)),
        o if aXYb(o, 0x8, 0xE) => Some(Chip8Op::BitOpShiftLeft(x, y)),
        o if aXYb(o, 0x9, 0x0) => Some(Chip8Op::CmpNotEqualReg(x, y)),
        o if first_nibble(o) == 0xA => Some(Chip8Op::SetMemoryAddress(word)),
        o if first_nibble(o) == 0xB => Some(Chip8Op::JumpPlus(word)),
        o if first_nibble(o) == 0xC => Some(Chip8Op::Random(x, nn_byte(o))),
        o if first_nibble(o) == 0xD => Some(Chip8Op::DrawSprite(x, y, last_nibble(o))),
        o if aXbb(o, 0xE, 0x9E) => Some(Chip8Op::KeyPressed(x)),
        o if aXbb(o, 0xE, 0xA1) => Some(Chip8Op::KeyNotPressed(x)),
        o if aXbb(o, 0xF, 0x07) => Some(Chip8Op::GetDelay(x)),
        o if aXbb(o, 0xF, 0x0A) => Some(Chip8Op::GetKey(x)),
        o if aXbb(o, 0xF, 0x15) => Some(Chip8Op::SetDelay(x)),
        o if aXbb(o, 0xF, 0x18) => Some(Chip8Op::SetSound(x)),
        o if aXbb(o, 0xF, 0x1E) => Some(Chip8Op::AddMemoryAddress(x)),
        o if aXbb(o, 0xF, 0x29) => Some(Chip8Op::GetSprite(x)),
        o if aXbb(o, 0xF, 0x33) => Some(Chip8Op::BinaryCoding(x)),
        o if aXbb(o, 0xF, 0x55) => Some(Chip8Op::RegisterDump(x)),
        o if aXbb(o, 0xF, 0x65) => Some(Chip8Op::RegisterLoad(x)),
        _ => None,
    }
}

} // verus!
