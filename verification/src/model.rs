//! The machine as a mathematical value, and what each instruction does to it.
//!
//! Every contract of the interpreter is stated over [`Machine`]: the
//! interpreter's view is a `Machine`, and one cycle of the interpreter is the
//! function [`step`] on it.

use vstd::prelude::*;
use crate::error::Chip8Error;
use crate::opcode::{spec_decode, Chip8Op};
use crate::sprite::{sprite_collides, sprite_drawn, sprite_origin};

verus! {

/// The whole state of the machine.
pub struct Machine {
    /// 4096 bytes; the font table sits at the bottom, programs start at `0x200`.
    pub memory: Seq<u8>,
    /// The sixteen general registers; register `0xF` doubles as the flag.
    pub registers: Seq<u8>,
    /// Sixteen slots for return addresses; the first `sp` of them are in use.
    pub stack: Seq<u16>,
    /// The number of return addresses on the stack.
    pub sp: int,
    pub delay_timer: u8,
    pub sound_timer: u8,
    /// For each of the sixteen keys, whether it was pressed since it was last tested.
    pub keys: Seq<bool>,
    /// 64 by 32 cells, row by row.
    pub display: Seq<bool>,
    /// The last cycle changed the display.
    pub draw_flag: bool,
    /// The last cycle ran the sound timer down to zero.
    pub beep_flag: bool,
    /// The program waits for a key.
    pub wait_for_key_flag: bool,
    /// The register that receives the key the program waits for.
    pub key_target: int,
    /// The address of the next instruction.
    pub pc: int,
    /// The memory-address register.
    pub ma: int,
}

impl Machine {
    /// The collections have their fixed sizes and the counters fit their widths.
    pub open spec fn wf(self) -> bool {
        &&& self.memory.len() == 4096
        &&& self.registers.len() == 16
        &&& self.stack.len() == 16
        &&& 0 <= self.sp <= 16
        &&& self.keys.len() == 16
        &&& self.display.len() == 2048
        &&& 0 <= self.key_target < 16
        &&& 0 <= self.pc <= 0xFFFF
        &&& 0 <= self.ma <= 0xFFFF
    }
}

/// The font table: five rows for each of the glyphs `0` to `F`, each row in
/// the high nibble of its byte.
pub open spec fn font_table() -> Seq<u8> {
    seq![
        0xF0u8, 0x90, 0x90, 0x90, 0xF0,
        0x20, 0x60, 0x20, 0x20, 0x70,
        0xF0, 0x10, 0xF0, 0x80, 0xF0,
        0xF0, 0x10, 0xF0, 0x10, 0xF0,
        0x90, 0x90, 0xF0, 0x10, 0x10,
        0xF0, 0x80, 0xF0, 0x10, 0xF0,
        0xF0, 0x80, 0xF0, 0x90, 0xF0,
        0xF0, 0x10, 0x20, 0x40, 0x40,
        0xF0, 0x90, 0xF0, 0x90, 0xF0,
        0xF0, 0x90, 0xF0, 0x10, 0xF0,
        0xF0, 0x90, 0xF0, 0x90, 0x90,
        0xE0, 0x90, 0xE0, 0x90, 0xE0,
        0xF0, 0x80, 0x80, 0x80, 0xF0,
        0xE0, 0x90, 0x90, 0x90, 0xE0,
        0xF0, 0x80, 0xF0, 0x80, 0xF0,
        0xF0, 0x80, 0xF0, 0x80, 0x80,
    ]
}

/// The machine before any program is loaded: the font table at the bottom of
/// memory, everything else zero or off, the program counter at `0x200`.
pub open spec fn initial_machine() -> Machine {
    Machine {
        memory: Seq::new(4096, |i: int| if i < 80 { font_table()[i] } else { 0u8 }),
        registers: Seq::new(16, |i: int| 0u8),
        stack: Seq::new(16, |i: int| 0u16),
        sp: 0,
        delay_timer: 0,
        sound_timer: 0,
        keys: Seq::new(16, |i: int| false),
        display: Seq::new(2048, |i: int| false),
        draw_flag: false,
        beep_flag: false,
        wait_for_key_flag: false,
        key_target: 0,
        pc: 0x200,
        ma: 0,
    }
}

/// Whether a program image of `len` bytes fits between `0x200` and the end of
/// memory.
pub open spec fn image_fits(len: int) -> bool {
    len <= 4096 - 0x200
}

/// The machine with the bytes of `image` copied to memory from `0x200` on.
pub open spec fn loaded(s: Machine, image: Seq<u8>) -> Machine {
    Machine {
        memory: Seq::new(
            4096,
            |i: int|
                if 0x200 <= i < 0x200 + image.len() {
                    image[i - 0x200]
                } else {
                    s.memory[i]
                },
        ),
        ..s
    }
}

/// The machine with the keys of `pressed` added to the pressed keys.
pub open spec fn keys_merged(s: Machine, pressed: Seq<bool>) -> Machine {
    Machine { keys: Seq::new(16, |i: int| s.keys[i] || pressed[i]), ..s }
}

/// The machine after the driver delivered `key`: where the program waits for
/// a key, the target register holds `key` and the wait is over; otherwise
/// nothing changes.
pub open spec fn key_given(s: Machine, key: u8) -> Machine {
    if s.wait_for_key_flag {
        Machine {
            registers: s.registers.update(s.key_target, key),
            wait_for_key_flag: false,
            ..s
        }
    } else {
        s
    }
}

/// Whether the key with index `k` counts as pressed. An index above 15 names
/// no key, and no key is never pressed.
pub open spec fn key_down(s: Machine, k: u8) -> bool {
    k < 16 && s.keys[k as int]
}

/// The key flags after key `k` was tested: its flag is cleared.
pub open spec fn keys_after_test(s: Machine, k: u8) -> Seq<bool> {
    if k < 16 {
        s.keys.update(k as int, false)
    } else {
        s.keys
    }
}

/// The machine with its program counter moved past one more instruction if
/// `skip` holds.
pub open spec fn skipped(s: Machine, skip: bool) -> Machine {
    Machine { pc: if skip { s.pc + 2 } else { s.pc }, ..s }
}

/// The machine with register `x` set to `value` and then the flag register
/// set to `flag`.
pub open spec fn with_result_and_flag(s: Machine, x: int, value: u8, flag: u8) -> Machine {
    Machine { registers: s.registers.update(x, value).update(0xF, flag), ..s }
}

/// The error with which instruction `op` stops the machine `s`, if it does.
///
/// A return needs a return address, a call needs a free stack slot, and a
/// memory instruction needs every byte it touches to lie inside memory.
pub open spec fn op_fault(s: Machine, op: Chip8Op) -> Option<Chip8Error> {
    match op {
        Chip8Op::Return => if s.sp == 0 {
            Some(Chip8Error::StackUnderflow)
        } else {
            None
        },
        Chip8Op::Call(_) => if s.sp >= 16 {
            Some(Chip8Error::StackOverflow)
        } else {
            None
        },
        Chip8Op::DrawSprite(_, _, h) => if h > 0 && s.ma + h > 4096 {
            Some(Chip8Error::MemoryOutOfRange)
        } else {
            None
        },
        Chip8Op::BinaryCoding(_) => if s.ma + 2 >= 4096 {
            Some(Chip8Error::MemoryOutOfRange)
        } else {
            None
        },
        Chip8Op::RegisterDump(x) | Chip8Op::RegisterLoad(x) => if s.ma + x >= 4096 {
            Some(Chip8Error::MemoryOutOfRange)
        } else {
            None
        },
        _ => None,
    }
}

/// The machine after instruction `op` ran on `s`, where `s.pc` already points
/// past the instruction and `random_byte` is the byte that a random
/// instruction draws. Meaningful where `op_fault(s, op)` is `None`.
pub open spec fn op_applied(s: Machine, op: Chip8Op, random_byte: u8) -> Machine {
    let r = s.registers;
    match op {
        Chip8Op::DisplayClear => Machine {
            display: Seq::new(2048, |i: int| false),
            draw_flag: true,
            ..s
        },
        Chip8Op::Return => Machine { pc: s.stack[s.sp - 1] as int, sp: s.sp - 1, ..s },
        Chip8Op::Jump(addr) => Machine { pc: addr as int, ..s },
        Chip8Op::Call(addr) => Machine {
            stack: s.stack.update(s.sp, s.pc as u16),
            sp: s.sp + 1,
            pc: addr as int,
            ..s
        },
        Chip8Op::CmpEqualConst(x, c) => skipped(s, r[x as int] == c),
        Chip8Op::CmpNotEqualConst(x, c) => skipped(s, r[x as int] != c),
        Chip8Op::CmpEqualReg(x, y) => skipped(s, r[x as int] == r[y as int]),
        Chip8Op::CmpNotEqualReg(x, y) => skipped(s, r[x as int] != r[y as int]),
        Chip8Op::SetRegConst(x, c) => Machine { registers: r.update(x as int, c), ..s },
        Chip8Op::AddConstReg(x, c) => Machine {
            registers: r.update(x as int, ((r[x as int] + c) % 256) as u8),
            ..s
        },
        Chip8Op::SetRegReg(x, y) => Machine { registers: r.update(x as int, r[y as int]), ..s },
        Chip8Op::BitOpOr(x, y) => Machine {
            registers: r.update(x as int, r[x as int] | r[y as int]),
            ..s
        },
        Chip8Op::BitOpAnd(x, y) => Machine {
            registers: r.update(x as int, r[x as int] & r[y as int]),
            ..s
        },
        Chip8Op::BitOpXor(x, y) => Machine {
            registers: r.update(x as int, r[x as int] ^ r[y as int]),
            ..s
        },
        Chip8Op::MathOpAdd(x, y) => {
            let sum = r[x as int] + r[y as int];
            with_result_and_flag(s, x as int, (sum % 256) as u8, if sum > 255 { 1 } else { 0 })
        },
        Chip8Op::MathOpSub(x, y) => {
            let diff = r[x as int] - r[y as int];
            with_result_and_flag(s, x as int, (diff % 256) as u8, if diff < 0 { 0 } else { 1 })
        },
        Chip8Op::MathOpSubNeg(x, y) => {
            let diff = r[y as int] - r[x as int];
            with_result_and_flag(s, x as int, (diff % 256) as u8, if diff < 0 { 0 } else { 1 })
        },
        Chip8Op::BitOpShiftRight(x, y) => {
            let source = r[y as int];
            Machine {
                registers: r.update(x as int, source >> 1).update(y as int, source >> 1).update(
                    0xF,
                    source & 0x01,
                ),
                ..s
            }
        },
        Chip8Op::BitOpShiftLeft(x, y) => {
            let source = r[y as int];
            Machine {
                registers: r.update(x as int, source << 1).update(y as int, source << 1).update(
                    0xF,
                    source & 0x80,
                ),
                ..s
            }
        },
        Chip8Op::SetMemoryAddress(addr) => Machine { ma: addr as int, ..s },
        Chip8Op::JumpPlus(addr) => Machine { pc: addr + r[0], ..s },
        Chip8Op::Random(x, mask) => Machine {
            registers: r.update(x as int, random_byte & mask),
            ..s
        },
        Chip8Op::DrawSprite(x, y, h) => {
            let origin = sprite_origin(r[x as int], r[y as int]);
            let hit = sprite_collides(s.display, s.memory, s.ma, h as int, origin);
            Machine {
                display: sprite_drawn(s.display, s.memory, s.ma, h as int, origin),
                registers: r.update(0xF, if hit { 1 } else { 0 }),
                draw_flag: true,
                ..s
            }
        },
        Chip8Op::KeyPressed(x) => Machine {
            keys: keys_after_test(s, r[x as int]),
            ..skipped(s, key_down(s, r[x as int]))
        },
        Chip8Op::KeyNotPressed(x) => Machine {
            keys: keys_after_test(s, r[x as int]),
            ..skipped(s, !key_down(s, r[x as int]))
        },
        Chip8Op::GetDelay(x) => Machine { registers: r.update(x as int, s.delay_timer), ..s },
        Chip8Op::GetKey(x) => Machine { wait_for_key_flag: true, key_target: x as int, ..s },
        Chip8Op::SetDelay(x) => Machine { delay_timer: r[x as int], ..s },
        Chip8Op::SetSound(x) => Machine { sound_timer: r[x as int], ..s },
        Chip8Op::AddMemoryAddress(x) => Machine { ma: (s.ma + r[x as int]) % 0x10000, ..s },
        Chip8Op::GetSprite(x) => Machine { ma: 5 * r[x as int], ..s },
        Chip8Op::BinaryCoding(x) => {
            let v = r[x as int];
            Machine {
                memory: s.memory.update(s.ma, v / 100).update(s.ma + 1, (v / 10) % 10).update(
                    s.ma + 2,
                    v % 10,
                ),
                ..s
            }
        },
        Chip8Op::RegisterDump(x) => Machine {
            memory: Seq::new(
                4096,
                |i: int|
                    if s.ma <= i <= s.ma + x {
                        r[i - s.ma]
                    } else {
                        s.memory[i]
                    },
            ),
            ma: s.ma + x + 1,
            ..s
        },
        Chip8Op::RegisterLoad(x) => Machine {
            registers: Seq::new(
                16,
                |i: int|
                    if i <= x {
                        s.memory[s.ma + i]
                    } else {
                        r[i]
                    },
            ),
            ma: s.ma + x + 1,
            ..s
        },
    }
}

/// The machine after both timers ran: each one that is not zero goes down by
/// one, and the tone is requested when the sound timer thereby reaches zero.
pub open spec fn ticked(s: Machine) -> Machine {
    Machine {
        delay_timer: if s.delay_timer > 0 { (s.delay_timer - 1) as u8 } else { 0 },
        sound_timer: if s.sound_timer > 0 { (s.sound_timer - 1) as u8 } else { 0 },
        beep_flag: s.beep_flag || s.sound_timer == 1,
        ..s
    }
}

/// The machine at the start of a cycle: the requests of the last cycle are
/// withdrawn.
pub open spec fn cycle_begun(s: Machine) -> Machine {
    Machine { draw_flag: false, beep_flag: false, ..s }
}

/// Whether the two bytes of the next instruction lie inside memory.
pub open spec fn fetch_in_range(s: Machine) -> bool {
    0 <= s.pc && s.pc + 1 < 4096
}

/// The instruction word at the program counter: high byte first.
pub open spec fn fetched_word(s: Machine) -> u16 {
    (s.memory[s.pc] * 256 + s.memory[s.pc + 1]) as u16
}

/// The machine after the fetch: the program counter points past the word.
pub open spec fn fetched(s: Machine) -> Machine {
    Machine { pc: s.pc + 2, ..s }
}

/// The error with which the next cycle of `s` ends, if it ends with one.
pub open spec fn step_fault(s: Machine) -> Option<Chip8Error> {
    if !fetch_in_range(s) {
        Some(Chip8Error::MemoryOutOfRange)
    } else {
        match spec_decode(fetched_word(s)) {
            None => Some(
                Chip8Error::DecodeFailure { opcode: fetched_word(s), address: s.pc as u16 },
            ),
            Some(op) => op_fault(fetched(cycle_begun(s)), op),
        }
    }
}

/// The machine after one cycle of `s`, in which a random instruction draws
/// `random_byte`.
///
/// A cycle that ends with an error leaves the machine as it was when the
/// error was found: after a failed fetch only the requests of the last cycle
/// are withdrawn; after a failed decode or a failed instruction the program
/// counter also points past the instruction. The instruction itself has then
/// changed nothing and the timers have not run.
pub open spec fn step(s: Machine, random_byte: u8) -> Machine {
    let begun = cycle_begun(s);
    if !fetch_in_range(s) {
        begun
    } else {
        match spec_decode(fetched_word(s)) {
            None => fetched(begun),
            Some(op) => if op_fault(fetched(begun), op) is Some {
                fetched(begun)
            } else {
                ticked(op_applied(fetched(begun), op, random_byte))
            },
        }
    }
}

/// Whether the next cycle of `s` runs a random instruction.
pub open spec fn next_is_random(s: Machine) -> bool {
    fetch_in_range(s) && spec_decode(fetched_word(s)) matches Some(Chip8Op::Random(_, _))
}

} // verus!
