//! The interpreter: the machine's state and the operations on it.

use vstd::prelude::*;
use crate::error::Chip8Error;
use crate::model::{
    fetch_in_range, fetched, fetched_word, font_table, image_fits, initial_machine, key_down,
    key_given, keys_after_test, keys_merged, loaded, next_is_random, op_applied, op_fault, skipped,
    step, step_fault, ticked, with_result_and_flag, Machine,
};
use crate::opcode::{decode_opcode, Chip8Op};
use crate::sprite::draw_sprite;
use crate::{DISPSIZE, MEMSIZE, NUM_KEYS, NUM_REGS, STACKSIZE};

verus! {

/// The built-in glyphs for the digits `0` to `F`, five rows each.
pub const FONTSET: [u8; 80] = [
    0xF0, 0x90, 0x90, 0x90, 0xF0,
    0x20, 0x60, 0x20, 0x20, 0x70,
    0xF0, 0x10, 0xF0, 0x80, 0xF0,
    0xF0, 0x10, 0xF0, 0x10, 0xF0,
    0x90, 0x90, 0xF0, 0x10, 0x10,
    0xF0, 0x80, 0xF0, 0x10, 0xF0,
    0xF0, 0x80, 0xF0, 0x90, 0xF0,
    0xF0, 0x10, 0x20, 0x40, 0x40,
    0xF0, 0x90, 0xF0, 0x90, 0xF0,
    0xF0, 0x90, 0xF0, 0x10, 0xF0,
    0xF0, 0x90, 0xF0, 0x90, 0x90,
    0xE0, 0x90, 0xE0, 0x90, 0xE0,
    0xF0, 0x80, 0x80, 0x80, 0xF0,
    0xE0, 0x90, 0x90, 0x90, 0xE0,
    0xF0, 0x80, 0xF0, 0x80, 0xF0,
    0xF0, 0x80, 0xF0, 0x80, 0x80,
];

/// The machine. One value runs one program.
pub struct Chip8 {
    memory: [u8; MEMSIZE],
    registers: [u8; NUM_REGS],
    stack: [u16; STACKSIZE],
    delay_timer: u8,
    sound_timer: u8,
    keys: [bool; NUM_KEYS],
    display: [bool; DISPSIZE],
    draw_flag: bool,
    beep_flag: bool,
    wait_for_key_flag: bool,
    key_target: usize,
    pc: u16,
    sp: usize,
    ma: u16,
}

impl View for Chip8 {
    type V = Machine;

    closed spec fn view(&self) -> Machine {
        Machine {
            memory: self.memory@,
            registers: self.registers@,
            stack: self.stack@,
            sp: self.sp as int,
            delay_timer: self.delay_timer,
            sound_timer: self.sound_timer,
            keys: self.keys@,
            display: self.display@,
            draw_flag: self.draw_flag,
            beep_flag: self.beep_flag,
            wait_for_key_flag: self.wait_for_key_flag,
            key_target: self.key_target as int,
            pc: self.pc as int,
            ma: self.ma as int,
        }
    }
}

impl Chip8 {
    /// The stack never holds more than its sixteen slots, and the key target
    /// names a register.
    #[verifier::type_invariant]
    spec fn inv(self) -> bool {
        self.sp <= STACKSIZE && self.key_target < NUM_REGS
    }

    /// Makes a machine with the font table installed and no program loaded.
    pub fn new() -> (chip8: Self)
        ensures
            chip8@ == initial_machine(),
            chip8@.wf(),
    {
        let mut this_memory = [0u8; MEMSIZE];
        for i in 0..80usize
            invariant
                FONTSET@ == font_table(),
                forall|j: int| 0 <= j < i ==> this_memory@[j] == font_table()[j],
                forall|j: int| i <= j < 4096 ==> this_memory@[j] == 0,
        {
            this_memory[i] = FONTSET[i];
        }
        let chip8 = Chip8 {
            memory: this_memory,
            registers: [0; NUM_REGS],
            stack: [0; STACKSIZE],
            delay_timer: 0,
            sound_timer: 0,
            keys: [false; NUM_KEYS],
            display: [false; DISPSIZE],
            draw_flag: false,
            beep_flag: false,
            wait_for_key_flag: false,
            key_target: 0,
            pc: 0x200,
            sp: 0,
            ma: 0,
        };
        assert(chip8@.memory =~= initial_machine().memory);
        assert(chip8@.registers =~= initial_machine().registers);
        assert(chip8@.stack =~= initial_machine().stack);
        assert(chip8@.keys =~= initial_machine().keys);
        assert(chip8@.display =~= initial_machine().display);
        chip8
    }

    /// Copies a program image to memory, starting at address `0x200`.
    ///
    /// An image that does not fit between `0x200` and the end of memory is
    /// rejected, and the machine is then left as it was.
    pub fn load(&mut self, program: &[u8]) -> (res: Result<(), Chip8Error>)
        ensures
            image_fits(program@.len() as int) ==> res == Ok::<(), Chip8Error>(()) && final(self)@
                == loaded(old(self)@, program@),
            !image_fits(program@.len() as int) ==> res == Err::<(), Chip8Error>(
                Chip8Error::ImageTooLarge,
            ) && final(self)@ == old(self)@,
            final(self)@.wf(),
    {
        proof {
            use_type_invariant(&*self);
        }
        if program.len() > MEMSIZE - 0x200 {
            return Err(Chip8Error::ImageTooLarge);
        }
        let ghost before = self@;
        for index in 0..program.len()
            invariant
                program@.len() <= MEMSIZE - 0x200,
                self.inv(),
                before.memory.len() == 4096,
                self@ == (Machine { memory: self@.memory, ..before }),
                self@.memory.len() == 4096,
                forall|j: int|
                    0 <= j < 4096 ==> self@.memory[j] == if 0x200 <= j < 0x200 + index {
                        program@[j - 0x200]
                    } else {
                        before.memory[j]
                    },
        {
            self.memory[0x200 + index] = program[index];
        }
        assert(self@.memory =~= loaded(before, program@).memory);
        Ok(())
    }

    /// Adds the keys of `keys_pressed` to the keys that count as pressed.
    pub fn set_keys(&mut self, keys_pressed: [bool; 16])
        ensures
            final(self)@ == keys_merged(old(self)@, keys_pressed@),
            final(self)@.wf(),
    {
        proof {
            use_type_invariant(&*self);
        }
        let ghost before = self@;
        for i in 0..NUM_KEYS
            invariant
                self.inv(),
                before.keys.len() == 16,
                self@ == (Machine { keys: self@.keys, ..before }),
                self@.keys.len() == 16,
                forall|j: int|
                    0 <= j < 16 ==> self@.keys[j] == if j < i {
                        before.keys[j] || keys_pressed@[j]
                    } else {
                        before.keys[j]
                    },
        {
            self.keys[i] = self.keys[i] || keys_pressed[i];
        }
        assert(self@.keys =~= keys_merged(before, keys_pressed@).keys);
    }

    /// Delivers the key that the program waits for: the target register of
    /// the pending wait receives `key`, and the wait is over. Without a
    /// pending wait nothing changes.
    pub fn give_key(&mut self, key: u8)
        ensures
            final(self)@ == key_given(old(self)@, key),
            final(self)@.wf(),
    {
        proof {
            use_type_invariant(&*self);
        }
        if self.wait_for_key_flag {
            self.registers[self.key_target] = key;
            self.wait_for_key_flag = false;
        }
    }

    /// Reads the instruction word at the program counter, high byte first,
    /// without moving the counter. There is none where the two bytes do not
    /// lie inside memory.
    pub fn next_opcode(&self) -> (word: Option<u16>)
        ensures
            fetch_in_range(self@) ==> word == Some(fetched_word(self@)),
            !fetch_in_range(self@) ==> word.is_none(),
    {
        let pc = self.pc as usize;
        if pc + 1 >= MEMSIZE {
            return None;
        }
        let high = self.memory[pc];
        let low = self.memory[pc + 1];
        let opcode = ((high as u16) << 8) | (low as u16);
        assert(opcode == high * 256 + low) by (bit_vector)
            requires
                opcode == ((high as u16) << 8) | (low as u16),
        ;
        Some(opcode)
    }

    /// Reads the instruction word at the program counter and moves the
    /// counter past it. Fails, and changes nothing, where the word does not
    /// lie inside memory.
    fn fetch_opcode(&mut self) -> (res: Result<u16, Chip8Error>)
        ensures
            fetch_in_range(old(self)@) ==> res == Ok::<u16, Chip8Error>(fetched_word(old(self)@))
                && final(self)@ == fetched(old(self)@),
            !fetch_in_range(old(self)@) ==> res == Err::<u16, Chip8Error>(
                Chip8Error::MemoryOutOfRange,
            ) && final(self)@ == old(self)@,
    {
        proof {
            use_type_invariant(&*self);
        }
        match self.next_opcode() {
            Some(opcode) => {
                self.pc = self.pc + 2;
                Ok(opcode)
            },
            None => Err(Chip8Error::MemoryOutOfRange),
        }
    }

    /// Moves the program counter past one more instruction if `skip` holds.
    fn skip_if(&mut self, skip: bool)
        requires
            old(self)@.pc <= 0x1000,
        ensures
            final(self)@ == skipped(old(self)@, skip),
    {
        proof {
            use_type_invariant(&*self);
        }
        if skip {
            self.pc += 2;
        }
    }

    /// Sets register `x` to `value`.
    fn set_register(&mut self, x: usize, value: u8)
        requires
            x < 16,
        ensures
            final(self)@ == (Machine {
                registers: old(self)@.registers.update(x as int, value),
                ..old(self)@
            }),
    {
        proof {
            use_type_invariant(&*self);
        }
        self.registers[x] = value;
    }

    /// Sets registers `x` and `y` to `value`, then the flag register to `flag`.
    fn set_pair_with_flag(&mut self, x: usize, y: usize, value: u8, flag: u8)
        requires
            x < 16,
            y < 16,
        ensures
            final(self)@ == (Machine {
                registers: old(self)@.registers.update(x as int, value).update(
                    y as int,
                    value,
                ).update(0xF, flag),
                ..old(self)@
            }),
    {
        proof {
            use_type_invariant(&*self);
        }
        self.registers[x] = value;
        self.registers[y] = value;
        self.registers[0x0F] = flag;
    }

    /// Turns every display cell off and requests a redraw.
    fn clear_display(&mut self)
        ensures
            final(self)@ == op_applied(old(self)@, Chip8Op::DisplayClear, 0),
    {
        proof {
            use_type_invariant(&*self);
        }
        self.display = [false;DISPSIZE];
        self.draw_flag = true;
        assert(self@.display =~= op_applied(old(self)@, Chip8Op::DisplayClear, 0).display);
    }

    /// Draws the `h`-row sprite at the memory-address register at the
    /// position held in registers `x` and `y`, sets the flag register to 1 if
    /// a lit cell went off and to 0 otherwise, and requests a redraw.
    fn draw(&mut self, x: usize, y: usize, h: u8)
        requires
            x < 16,
            y < 16,
            h < 16,
            h > 0 ==> old(self)@.ma + h <= 4096,
        ensures
            final(self)@ == op_applied(old(self)@, Chip8Op::DrawSprite(x, y, h), 0),
    {
        proof {
            use_type_invariant(&*self);
        }
        self.draw_flag = true;
        let left = self.registers[x];
        let top = self.registers[y];
        let collision = draw_sprite(
            &mut self.display,
            &self.memory,
            self.ma as usize,
            h,
            left,
            top,
        );
        if collision {
            self.registers[0xF] = 0x1;
        } else {
            self.registers[0xF] = 0x0;
        }
    }

    /// Sets register `x` to `value`, then the flag register to `flag`.
    fn set_with_flag(&mut self, x: usize, value: u8, flag: u8)
        requires
            x < 16,
        ensures
            final(self)@ == with_result_and_flag(old(self)@, x as int, value, flag),
    {
        proof {
            use_type_invariant(&*self);
        }
        self.registers[x] = value;
        self.registers[0xF] = flag;
    }

    /// Tests key `k` and clears its flag. An index above 15 names no key.
    fn test_key(&mut self, k: u8) -> (pressed: bool)
        ensures
            pressed == key_down(old(self)@, k),
            final(self)@ == (Machine {
                keys: keys_after_test(old(self)@, k),
                ..old(self)@
            }),
    {
        proof {
            use_type_invariant(&*self);
        }
        if (k as usize) < NUM_KEYS {
            let pressed = self.keys[k as usize];
            self.keys[k as usize] = false;
            pressed
        } else {
            false
        }
    }

    /// Writes the hundreds, tens and units of register `x` to the three bytes
    /// at the memory-address register.
    fn store_decimal(&mut self, x: usize)
        requires
            x < 16,
            old(self)@.ma + 2 < 4096,
        ensures
            final(self)@ == op_applied(old(self)@, Chip8Op::BinaryCoding(x), 0),
    {
        proof {
            use_type_invariant(&*self);
        }
        let value = self.registers[x];
        let at = self.ma as usize;
        self.memory[at] = value / 100;
        self.memory[at + 1] = (value / 10) % 10;
        self.memory[at + 2] = value % 10;
    }

    /// Copies registers `0..=x` to memory at the memory-address register,
    /// which moves past the bytes written.
    fn dump_registers(&mut self, x: usize)
        requires
            x < 16,
            old(self)@.ma + x < 4096,
        ensures
            final(self)@ == op_applied(old(self)@, Chip8Op::RegisterDump(x), 0),
    {
        proof {
            use_type_invariant(&*self);
        }
        let ghost before = self@;
        for i in 0..x + 1
            invariant
                x < 16,
                self.inv(),
                before.ma + x < 4096,
                before.memory.len() == 4096,
                before.registers.len() == 16,
                self@ == (Machine { memory: self@.memory, ma: before.ma + i, ..before }),
                forall|j: int|
                    0 <= j < 4096 ==> self@.memory[j] == if before.ma <= j < before.ma + i {
                        before.registers[j - before.ma]
                    } else {
                        before.memory[j]
                    },
        {
            self.memory[self.ma as usize] = self.registers[i];
            self.ma += 1;
        }
        assert(self@.memory =~= op_applied(before, Chip8Op::RegisterDump(x), 0).memory);
    }

    /// Copies memory at the memory-address register to registers `0..=x`;
    /// the memory-address register moves past the bytes read.
    fn load_registers(&mut self, x: usize)
        requires
            x < 16,
            old(self)@.ma + x < 4096,
        ensures
            final(self)@ == op_applied(old(self)@, Chip8Op::RegisterLoad(x), 0),
    {
        proof {
            use_type_invariant(&*self);
        }
        let ghost before = self@;
        for i in 0..x + 1
            invariant
                x < 16,
                self.inv(),
                before.ma + x < 4096,
                before.memory.len() == 4096,
                before.registers.len() == 16,
                self@ == (Machine { registers: self@.registers, ma: before.ma + i, ..before }),
                forall|j: int|
                    0 <= j < 16 ==> self@.registers[j] == if j < i {
                        before.memory[before.ma + j]
                    } else {
                        before.registers[j]
                    },
        {
            self.registers[i] = self.memory[self.ma as usize];
            self.ma += 1;
        }
        assert(self@.registers =~= op_applied(before, Chip8Op::RegisterLoad(x), 0).registers);
    }

    /// Runs one instruction. `random_byte` is the byte that a random
    /// instruction draws; the program counter already points past the
    /// instruction.
    ///
    /// An instruction that fails changes nothing.
    fn execute_op(&mut self, op: Chip8Op, random_byte: u8) -> (res: Result<(), Chip8Error>)
        requires
            op.wf(),
            old(self)@.pc <= 0x1000,
        ensures
            op_fault(old(self)@, op) matches Some(e) ==> res == Err::<(), Chip8Error>(e)
                && final(self)@ == old(self)@,
            op_fault(old(self)@, op) is None ==> res == Ok::<(), Chip8Error>(()) && final(self)@
                == op_applied(old(self)@, op, random_byte),
    {
        proof {
            use_type_invariant(&*self);
        }
        match op {
            Chip8Op::DisplayClear => {
                self.clear_display();
            },
            Chip8Op::Return => {
                if self.sp == 0 {
                    return Err(Chip8Error::StackUnderflow);
                }
                self.sp -= 1;
                self.pc = self.stack[self.sp];
            },
            Chip8Op::Jump(addr) => {
                self.pc = addr as u16;
            },
            Chip8Op::Call(addr) => {
                if self.sp >= STACKSIZE {
                    return Err(Chip8Error::StackOverflow);
                }
                self.stack[self.sp] = self.pc;
                self.sp += 1;
                self.pc = addr as u16;
            },
            Chip8Op::CmpEqualConst(x, c) => {
                self.skip_if(self.registers[x] == c);
            },
            Chip8Op::CmpNotEqualConst(x, c) => {
                self.skip_if(self.registers[x] != c);
            },
            Chip8Op::CmpEqualReg(x, y) => {
                self.skip_if(self.registers[x] == self.registers[y]);
            },
            Chip8Op::SetRegConst(x, c) => {
                self.set_register(x, c);
            },
            Chip8Op::AddConstReg(x, c) => {
                let (result, _) = overflowing_add(self.registers[x], c);
                self.set_register(x, result);
            },
            Chip8Op::SetRegReg(x, y) => {
                self.set_register(x, self.registers[y]);
            },
            Chip8Op::BitOpOr(x, y) => {
                self.set_register(x, self.registers[x] | self.registers[y]);
            },
            Chip8Op::BitOpAnd(x, y) => {
                self.set_register(x, self.registers[x] & self.registers[y]);
            },
            Chip8Op::BitOpXor(x, y) => {
                self.set_register(x, self.registers[x] ^ self.registers[y]);
            },
            Chip8Op::MathOpAdd(x, y) => {
                let (result, overflow) = overflowing_add(self.registers[x], self.registers[y]);
                self.set_with_flag(x, result, if overflow { 0x1 } else { 0x0 });
            },
            Chip8Op::MathOpSub(x, y) => {
                let (result, underflow) = overflowing_sub(self.registers[x], self.registers[y]);
                self.set_with_flag(x, result, if underflow { 0x0 } else { 0x1 });
            },
            Chip8Op::BitOpShiftRight(x, y) => {
                let source = self.registers[y];
                self.set_pair_with_flag(x, y, source >> 1, source & 0x01);
            },
            Chip8Op::MathOpSubNeg(x, y) => {
                let (result, underflow) = overflowing_sub(self.registers[y], self.registers[x]);
                self.set_with_flag(x, result, if underflow { 0x0 } else { 0x1 });
            },
            Chip8Op::BitOpShiftLeft(x, y) => {
                let source = self.registers[y];
                self.set_pair_with_flag(x, y, source << 1, source & 0x80);
            },
            Chip8Op::CmpNotEqualReg(x, y) => {
                self.skip_if(self.registers[x] != self.registers[y]);
            },
            Chip8Op::SetMemoryAddress(addr) => {
                self.ma = addr as u16;
            },
            Chip8Op::JumpPlus(addr) => {
                self.pc = addr as u16 + self.registers[0x00] as u16;
            },
            Chip8Op::Random(x, mask) => {
                self.set_register(x, random_byte & mask);
            },
            Chip8Op::DrawSprite(x, y, h) => {
                if h > 0 && self.ma as usize + h as usize > MEMSIZE {
                    return Err(Chip8Error::MemoryOutOfRange);
                }
                self.draw(x, y, h);
            },
            Chip8Op::KeyPressed(x) => {
                let pressed = self.test_key(self.registers[x]);
                self.skip_if(pressed);
            },
            Chip8Op::KeyNotPressed(x) => {
                let pressed = self.test_key(self.registers[x]);
                self.skip_if(!pressed);
            },
            Chip8Op::GetDelay(x) => {
                self.set_register(x, self.delay_timer);
            },
            Chip8Op::GetKey(x) => {
                self.wait_for_key_flag = true;
                self.key_target = x;
            },
            Chip8Op::SetDelay(x) => {
                self.delay_timer = self.registers[x];
            },
            Chip8Op::SetSound(x) => {
                self.sound_timer = self.registers[x];
            },
            Chip8Op::AddMemoryAddress(x) => {
                self.ma = advanced_address(self.ma, self.registers[x]);
            },
            Chip8Op::GetSprite(x) => {
                self.ma = 5 * (self.registers[x] as u16);
            },
            Chip8Op::BinaryCoding(x) => {
                if self.ma as usize + 2 >= MEMSIZE {
                    return Err(Chip8Error::MemoryOutOfRange);
                }
                self.store_decimal(x);
            },
            Chip8Op::RegisterDump(x) => {
                if self.ma as usize + x >= MEMSIZE {
                    return Err(Chip8Error::MemoryOutOfRange);
                }
                self.dump_registers(x);
            },
            Chip8Op::RegisterLoad(x) => {
                if self.ma as usize + x >= MEMSIZE {
                    return Err(Chip8Error::MemoryOutOfRange);
                }
                self.load_registers(x);
            },
        }
        Ok(())
    }

    /// Runs both timers: each one that is not zero goes down by one, and the
    /// tone is requested when the sound timer thereby reaches zero.
    fn run_timers(&mut self)
        ensures
            final(self)@ == ticked(old(self)@),
    {
        proof {
            use_type_invariant(&*self);
        }
        if self.delay_timer > 0 {
            self.delay_timer -= 1;
        }
        if self.sound_timer > 0 {
            self.sound_timer -= 1;
            if self.sound_timer == 0 {
                self.beep_flag = true;
            }
        }
    }

    /// Runs one cycle in which a random instruction, if it is one, draws
    /// `random_byte`: withdraws the requests of the last cycle, fetches,
    /// decodes and executes one instruction, then runs the timers.
    ///
    /// A cycle that fails stops where the failure is found: the instruction
    /// has changed nothing and the timers have not run.
    pub fn emulate_cycle_with(&mut self, random_byte: u8) -> (res: Result<(), Chip8Error>)
        ensures
            final(self)@ == step(old(self)@, random_byte),
            step_fault(old(self)@) matches Some(e) ==> res == Err::<(), Chip8Error>(e),
            step_fault(old(self)@) is None ==> res == Ok::<(), Chip8Error>(()),
            final(self)@.wf(),
    {
        proof {
            use_type_invariant(&*self);
        }
        self.draw_flag = false;
        self.beep_flag = false;
        let address = self.pc;
        let opcode = match self.fetch_opcode() {
            Ok(opcode) => opcode,
            Err(e) => {
                return Err(e);
            },
        };
        let op = match decode_opcode(opcode) {
            Some(op) => op,
            None => {
                return Err(Chip8Error::DecodeFailure { opcode, address });
            },
        };
        match self.execute_op(op, random_byte) {
            Ok(()) => {},
            Err(e) => {
                return Err(e);
            },
        }
        self.run_timers();
        proof {
            use_type_invariant(&*self);
        }
        Ok(())
    }

    /// Tells whether the next cycle runs a random instruction.
    fn draws_random(&self) -> (random: bool)
        ensures
            random == next_is_random(self@),
    {
        match self.next_opcode() {
            Some(opcode) => match decode_opcode(opcode) {
                Some(Chip8Op::Random(_, _)) => true,
                _ => false,
            },
            None => false,
        }
    }

    /// Runs one cycle: withdraws the requests of the last cycle, fetches,
    /// decodes and executes one instruction, then runs the timers.
    ///
    /// A random instruction draws its byte from the thread's random number
    /// generator, so the outcome is one of those that `emulate_cycle_with`
    /// gives; for every other instruction the outcome is the same whatever
    /// the byte.
    pub fn emulate_cycle(&mut self) -> (res: Result<(), Chip8Error>)
        ensures
            exists|random_byte: u8| final(self)@ == #[trigger] step(old(self)@, random_byte),
            !next_is_random(old(self)@) ==> forall|random_byte: u8|
                final(self)@ == #[trigger] step(old(self)@, random_byte),
            step_fault(old(self)@) matches Some(e) ==> res == Err::<(), Chip8Error>(e),
            step_fault(old(self)@) is None ==> res == Ok::<(), Chip8Error>(()),
            final(self)@.wf(),
    {
        let random_byte = if self.draws_random() {
            random_byte()
        } else {
            0
        };
        self.emulate_cycle_with(random_byte)
    }

    /// The display: 64 by 32 cells, row by row.
    pub fn display(&self) -> (cells: &[bool; DISPSIZE])
        ensures
            cells@ == self@.display,
    {
        &self.display
    }

    /// Whether the last cycle changed the display.
    pub fn draw_flag(&self) -> (flag: bool)
        ensures
            flag == self@.draw_flag,
    {
        self.draw_flag
    }

    /// Whether the last cycle requested the tone.
    pub fn beep_flag(&self) -> (flag: bool)
        ensures
            flag == self@.beep_flag,
    {
        self.beep_flag
    }

    /// Whether the program waits for a key.
    pub fn wait_for_key_flag(&self) -> (flag: bool)
        ensures
            flag == self@.wait_for_key_flag,
    {
        self.wait_for_key_flag
    }

    /// The register that receives the key the program waits for.
    pub fn key_target(&self) -> (x: usize)
        ensures
            x == self@.key_target,
            x < 16,
    {
        proof {
            use_type_invariant(self);
        }
        self.key_target
    }

    /// The sixteen general registers.
    pub fn registers(&self) -> (registers: &[u8; NUM_REGS])
        ensures
            registers@ == self@.registers,
    {
        &self.registers
    }

    /// The 4096 bytes of memory.
    pub fn memory(&self) -> (memory: &[u8; MEMSIZE])
        ensures
            memory@ == self@.memory,
    {
        &self.memory
    }

    /// The sixteen stack slots; the first `stack_pointer()` of them are in use.
    pub fn stack(&self) -> (stack: &[u16; STACKSIZE])
        ensures
            stack@ == self@.stack,
    {
        &self.stack
    }

    /// The number of return addresses on the stack.
    pub fn stack_pointer(&self) -> (sp: usize)
        ensures
            sp == self@.sp,
            sp <= 16,
    {
        proof {
            use_type_invariant(self);
        }
        self.sp
    }

    /// For each key, whether it counts as pressed.
    pub fn keys(&self) -> (keys: &[bool; NUM_KEYS])
        ensures
            keys@ == self@.keys,
    {
        &self.keys
    }

    /// The address of the next instruction.
    pub fn program_counter(&self) -> (pc: u16)
        ensures
            pc == self@.pc,
    {
        self.pc
    }

    /// The memory-address register.
    pub fn memory_address(&self) -> (ma: u16)
        ensures
            ma == self@.ma,
    {
        self.ma
    }

    /// The delay timer.
    pub fn delay_timer(&self) -> (timer: u8)
        ensures
            timer == self@.delay_timer,
    {
        self.delay_timer
    }

    /// The sound timer.
    pub fn sound_timer(&self) -> (timer: u8)
        ensures
            timer == self@.sound_timer,
    {
        self.sound_timer
    }
}

/// The sum of two bytes modulo 256, and whether the sum passed 255.
fn overflowing_add(a: u8, b: u8) -> (r: (u8, bool))
    ensures
        r.0 == (a + b) % 256,
        r.1 == (a + b > 255),
{
    (a.wrapping_add(b), a > 255 - b)
}

/// The difference of two bytes modulo 256, and whether it went below zero.
fn overflowing_sub(a: u8, b: u8) -> (r: (u8, bool))
    ensures
        r.0 == (a - b) % 256,
        r.1 == (a - b < 0),
{
    (a.wrapping_sub(b), a < b)
}

/// The address `offset` bytes after `address`, modulo 65536.
fn advanced_address(address: u16, offset: u8) -> (r: u16)
    ensures
        r == (address + offset) % 0x10000,
{
    address.wrapping_add(offset as u16)
}

/// Draws a byte from `rand::random`, the thread-local generator of the `rand`
/// crate. Nothing is claimed of the byte: any value may come back.
#[verifier::external_body]
fn random_byte() -> (byte: u8) {
    rand::random::<u8>()
}

} // verus!
