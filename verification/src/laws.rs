//! What holds of the machine whatever program it runs.
//!
//! Each law is a proof function over the model of the machine: the laws on
//! single instructions speak of [`op_applied`], the laws on whole cycles of
//! [`step`].

use vstd::prelude::*;
use crate::model::{
    cycle_begun, fetch_in_range, fetched, fetched_word, key_down, key_given, loaded, op_applied,
    op_fault, step, step_fault, ticked, Machine,
};
use crate::opcode::{lemma_decode_wf, spec_decode, Chip8Op};
use crate::sprite::{sprite_collides, sprite_drawn, sprite_origin, sprite_pixel};

verus! {

/// The instruction that the next cycle of `s` runs, if the fetch and the
/// decoding succeed.
pub open spec fn next_op(s: Machine) -> Option<Chip8Op> {
    if fetch_in_range(s) {
        spec_decode(fetched_word(s))
    } else {
        None
    }
}

/// A cycle that succeeds is its instruction, run on the machine with the
/// requests withdrawn and the program counter moved on, and then the timers.
pub proof fn lemma_step_runs_op(s: Machine, random_byte: u8)
    requires
        step_fault(s) is None,
    ensures
        next_op(s) matches Some(op) && step(s, random_byte) == ticked(
            op_applied(fetched(cycle_begun(s)), op, random_byte),
        ),
{
}

/// A cycle keeps the machine well formed, whether it succeeds or fails.
pub proof fn lemma_step_wf(s: Machine, random_byte: u8)
    requires
        s.wf(),
    ensures
        step(s, random_byte).wf(),
{
    if fetch_in_range(s) {
        lemma_decode_wf(fetched_word(s));
    }
}

/// Loading a program keeps the machine well formed and leaves everything
/// below the load address, the font table with it, as it was.
pub proof fn lemma_load_keeps_low_memory(s: Machine, image: Seq<u8>)
    requires
        s.wf(),
    ensures
        loaded(s, image).wf(),
        forall|i: int| 0 <= i < 0x200 ==> loaded(s, image).memory[i] == s.memory[i],
{
}

/// A cycle changes memory only from the memory-address register upwards: a
/// program that keeps that register above the font table never overwrites it.
pub proof fn lemma_step_writes_from_address(s: Machine, random_byte: u8)
    requires
        s.wf(),
    ensures
        forall|i: int| 0 <= i < 4096 && i < s.ma ==> step(s, random_byte).memory[i] == s.memory[i],
{
    if fetch_in_range(s) {
        lemma_decode_wf(fetched_word(s));
    }
}

/// Only the clear and the draw instruction change the display.
pub proof fn lemma_display_owned(s: Machine, random_byte: u8)
    requires
        s.wf(),
        !(next_op(s) matches Some(Chip8Op::DisplayClear)),
        !(next_op(s) matches Some(Chip8Op::DrawSprite(_, _, _))),
    ensures
        step(s, random_byte).display == s.display,
{
}

/// A cycle that fails leaves the timers, the registers, the memory, the
/// stack, the keys and the display untouched, and requests neither a redraw
/// nor a tone.
pub proof fn lemma_failed_step(s: Machine, random_byte: u8)
    requires
        s.wf(),
        step_fault(s) is Some,
    ensures
        ({
            let t = step(s, random_byte);
            &&& t.delay_timer == s.delay_timer
            &&& t.sound_timer == s.sound_timer
            &&& t.registers == s.registers
            &&& t.memory == s.memory
            &&& t.stack == s.stack
            &&& t.sp == s.sp
            &&& t.keys == s.keys
            &&& t.display == s.display
            &&& t.ma == s.ma
            &&& !t.draw_flag
            &&& !t.beep_flag
            &&& t.pc == if fetch_in_range(s) { s.pc + 2 } else { s.pc }
        }),
{
}

/// The random byte matters to a random instruction only.
pub proof fn lemma_random_only(s: Machine, a: u8, b: u8)
    requires
        !(next_op(s) matches Some(Chip8Op::Random(_, _))),
    ensures
        step(s, a) == step(s, b),
{
}

/// Adding two registers wraps modulo 256 and leaves the carry in the flag
/// register: 1 if the sum is above 255, else 0. The flag is written last, so
/// it also wins where the target is the flag register itself.
pub proof fn lemma_add_carry(s: Machine, x: usize, y: usize, random_byte: u8)
    requires
        s.wf(),
        x < 16,
        y < 16,
    ensures
        ({
            let t = op_applied(s, Chip8Op::MathOpAdd(x, y), random_byte);
            let sum = s.registers[x as int] + s.registers[y as int];
            &&& t.registers[0xF] == if sum > 255 { 1int } else { 0int }
            &&& x != 0xF ==> t.registers[x as int] == if sum > 255 { sum - 256 } else { sum }
            &&& forall|i: int| 0 <= i < 16 && i != x && i != 0xF ==> t.registers[i] == s.registers[i]
            &&& t == (Machine { registers: t.registers, ..s })
        }),
{
}

/// Subtracting register `y` from register `x` wraps modulo 256 and leaves
/// "no borrow" in the flag register: 0 if `x` was below `y`, else 1.
pub proof fn lemma_sub_borrow(s: Machine, x: usize, y: usize, random_byte: u8)
    requires
        s.wf(),
        x < 16,
        y < 16,
    ensures
        ({
            let t = op_applied(s, Chip8Op::MathOpSub(x, y), random_byte);
            let a = s.registers[x as int];
            let b = s.registers[y as int];
            &&& t.registers[0xF] == if a < b { 0int } else { 1int }
            &&& x != 0xF ==> t.registers[x as int] == if a < b { a - b + 256 } else { a - b }
            &&& forall|i: int| 0 <= i < 16 && i != x && i != 0xF ==> t.registers[i] == s.registers[i]
            &&& t == (Machine { registers: t.registers, ..s })
        }),
{
}

/// Subtracting register `x` from register `y` into `x` wraps modulo 256 and
/// leaves "no borrow" in the flag register: 0 if `y` was below `x`, else 1.
pub proof fn lemma_sub_reversed_borrow(s: Machine, x: usize, y: usize, random_byte: u8)
    requires
        s.wf(),
        x < 16,
        y < 16,
    ensures
        ({
            let t = op_applied(s, Chip8Op::MathOpSubNeg(x, y), random_byte);
            let a = s.registers[x as int];
            let b = s.registers[y as int];
            &&& t.registers[0xF] == if b < a { 0int } else { 1int }
            &&& x != 0xF ==> t.registers[x as int] == if b < a { b - a + 256 } else { b - a }
            &&& forall|i: int| 0 <= i < 16 && i != x && i != 0xF ==> t.registers[i] == s.registers[i]
        }),
{
}

/// A right shift leaves in the flag register the lowest bit that the source
/// register `y` had before the shift, and half the source in `x` and `y`.
pub proof fn lemma_shift_right_flag(s: Machine, x: usize, y: usize, random_byte: u8)
    requires
        s.wf(),
        x < 16,
        y < 16,
    ensures
        ({
            let t = op_applied(s, Chip8Op::BitOpShiftRight(x, y), random_byte);
            let source = s.registers[y as int];
            &&& t.registers[0xF] == source % 2
            &&& x != 0xF ==> t.registers[x as int] == source / 2
            &&& y != 0xF ==> t.registers[y as int] == source / 2
        }),
{
    let source = s.registers[y as int];
    assert(source & 0x01 == source % 2) by (bit_vector);
    assert(source >> 1 == source / 2) by (bit_vector);
}

/// A left shift leaves in the flag register the highest bit of the source
/// register `y` in its place, 0 or 128, and twice the source modulo 256 in
/// `x` and `y`.
pub proof fn lemma_shift_left_flag(s: Machine, x: usize, y: usize, random_byte: u8)
    requires
        s.wf(),
        x < 16,
        y < 16,
    ensures
        ({
            let t = op_applied(s, Chip8Op::BitOpShiftLeft(x, y), random_byte);
            let source = s.registers[y as int];
            &&& t.registers[0xF] == if source >= 128 { 128int } else { 0int }
            &&& x != 0xF ==> t.registers[x as int] == (2 * source) % 256
            &&& y != 0xF ==> t.registers[y as int] == (2 * source) % 256
        }),
{
    let source = s.registers[y as int];
    assert(source & 0x80 == if source >= 128 { 128u8 } else { 0u8 }) by (bit_vector);
    assert(source << 1 == (2 * source) % 256) by (bit_vector);
}

/// The three bytes that the decimal store writes are the decimal digits of
/// the register, hundreds first.
pub proof fn lemma_decimal_digits(s: Machine, x: usize, random_byte: u8)
    requires
        s.wf(),
        x < 16,
        op_fault(s, Chip8Op::BinaryCoding(x)) is None,
    ensures
        ({
            let t = op_applied(s, Chip8Op::BinaryCoding(x), random_byte);
            let hundreds = t.memory[s.ma];
            let tens = t.memory[s.ma + 1];
            let units = t.memory[s.ma + 2];
            &&& hundreds <= 2
            &&& tens <= 9
            &&& units <= 9
            &&& 100 * hundreds + 10 * tens + units == s.registers[x as int]
            &&& forall|i: int|
                0 <= i < 4096 && !(s.ma <= i <= s.ma + 2) ==> t.memory[i] == s.memory[i]
            &&& t == (Machine { memory: t.memory, ..s })
        }),
{
}

/// Drawing a sprite twice restores the display. The second draw turns a lit
/// cell off exactly if the sprite has a pixel on a cell that was off before
/// the first draw.
pub proof fn lemma_sprite_twice(
    display: Seq<bool>,
    memory: Seq<u8>,
    address: int,
    height: int,
    origin: int,
)
    requires
        display.len() == 2048,
    ensures
        sprite_drawn(
            sprite_drawn(display, memory, address, height, origin),
            memory,
            address,
            height,
            origin,
        ) == display,
        sprite_collides(
            sprite_drawn(display, memory, address, height, origin),
            memory,
            address,
            height,
            origin,
        ) == (exists|cell: int|
            0 <= cell < 2048 && !display[cell] && #[trigger] sprite_pixel(
                memory,
                address,
                height,
                origin,
                cell,
            )),
{
}

/// The draw instruction run twice at one position restores the display, and
/// the second run sets the flag register if the sprite has a pixel on a cell
/// that was off at first: so it does for every sprite with a pixel that is
/// drawn on a blank region.
///
/// The position is the same in both runs where neither coordinate is read
/// from the flag register, which the first run overwrites.
pub proof fn lemma_draw_twice(s: Machine, x: usize, y: usize, h: u8, a: u8, b: u8)
    requires
        s.wf(),
        x < 0xF,
        y < 0xF,
        h < 16,
        op_fault(s, Chip8Op::DrawSprite(x, y, h)) is None,
    ensures
        ({
            let op = Chip8Op::DrawSprite(x, y, h);
            let origin = sprite_origin(s.registers[x as int], s.registers[y as int]);
            let t = op_applied(op_applied(s, op, a), op, b);
            &&& t.display == s.display
            &&& t.registers[0xF] == if (exists|cell: int|
                0 <= cell < 2048 && !s.display[cell] && #[trigger] sprite_pixel(
                    s.memory,
                    s.ma,
                    h as int,
                    origin,
                    cell,
                )) {
                1int
            } else {
                0int
            }
        }),
{
    let origin = sprite_origin(s.registers[x as int], s.registers[y as int]);
    lemma_sprite_twice(s.display, s.memory, s.ma, h as int, origin);
}

/// Whether the program counter and the return addresses on the stack are
/// even, as every instruction is two bytes long.
pub open spec fn aligned(s: Machine) -> bool {
    s.pc % 2 == 0 && forall|i: int| 0 <= i < s.sp ==> s.stack[i] % 2 == 0
}

/// Whether the next instruction, if it is a jump or a call, goes to an even
/// address.
pub open spec fn lands_even(s: Machine) -> bool {
    match next_op(s) {
        Some(Chip8Op::Jump(target)) | Some(Chip8Op::Call(target)) => target % 2 == 0,
        Some(Chip8Op::JumpPlus(target)) => (target + s.registers[0]) % 2 == 0,
        _ => true,
    }
}

/// The program counter stays even as long as the program jumps to even
/// addresses only. It starts even: a new machine is aligned, and loading a
/// program keeps it so.
pub proof fn lemma_counter_stays_even(s: Machine, random_byte: u8, image: Seq<u8>)
    requires
        s.wf(),
        aligned(s),
    ensures
        aligned(crate::model::initial_machine()),
        aligned(loaded(s, image)),
        lands_even(s) ==> aligned(step(s, random_byte)),
{
    if fetch_in_range(s) {
        lemma_decode_wf(fetched_word(s));
    }
}

/// After a jump the program counter is the target itself.
pub proof fn lemma_jump_counter(s: Machine, random_byte: u8)
    requires
        s.wf(),
        next_op(s) matches Some(Chip8Op::Jump(_)),
    ensures
        step_fault(s) is None,
        next_op(s) matches Some(Chip8Op::Jump(target)) && step(s, random_byte).pc == target,
{
}

/// After a jump with offset the program counter is the target plus register 0.
pub proof fn lemma_jump_plus_counter(s: Machine, random_byte: u8)
    requires
        s.wf(),
        next_op(s) matches Some(Chip8Op::JumpPlus(_)),
    ensures
        step_fault(s) is None,
        next_op(s) matches Some(Chip8Op::JumpPlus(target)) && step(s, random_byte).pc == target
            + s.registers[0],
{
}

/// Whether the conditional skip `op` skips in machine `s`; `None` where `op`
/// is no conditional skip.
pub open spec fn skip_taken(s: Machine, op: Chip8Op) -> Option<bool> {
    let r = s.registers;
    match op {
        Chip8Op::CmpEqualConst(x, c) => Some(r[x as int] == c),
        Chip8Op::CmpNotEqualConst(x, c) => Some(r[x as int] != c),
        Chip8Op::CmpEqualReg(x, y) => Some(r[x as int] == r[y as int]),
        Chip8Op::CmpNotEqualReg(x, y) => Some(r[x as int] != r[y as int]),
        Chip8Op::KeyPressed(x) => Some(key_down(s, r[x as int])),
        Chip8Op::KeyNotPressed(x) => Some(!key_down(s, r[x as int])),
        _ => None,
    }
}

/// A conditional skip moves the program counter by 4 where it skips and by 2
/// where it does not.
pub proof fn lemma_skip_counter(s: Machine, random_byte: u8)
    requires
        s.wf(),
        next_op(s) matches Some(op) && skip_taken(s, op) is Some,
    ensures
        step_fault(s) is None,
        next_op(s) matches Some(op) && step(s, random_byte).pc == if skip_taken(s, op)
            == Some(true) {
            s.pc + 4
        } else {
            s.pc + 2
        },
{
}

/// An instruction that is neither a jump, a call, a return nor a conditional
/// skip moves the program counter by 2.
pub proof fn lemma_sequential_counter(s: Machine, random_byte: u8)
    requires
        s.wf(),
        step_fault(s) is None,
        next_op(s) matches Some(op) && skip_taken(s, op) is None && !(op matches Chip8Op::Jump(_))
            && !(op matches Chip8Op::JumpPlus(_)) && !(op matches Chip8Op::Call(_)) && !(
        op matches Chip8Op::Return),
    ensures
        step(s, random_byte).pc == s.pc + 2,
{
}

/// After a call the program counter is the target, and the stack holds one
/// more address: that of the instruction after the call.
pub proof fn lemma_call_pushes(s: Machine, random_byte: u8)
    requires
        s.wf(),
        next_op(s) matches Some(Chip8Op::Call(_)),
        s.sp < 16,
    ensures
        step_fault(s) is None,
        ({
            let t = step(s, random_byte);
            &&& next_op(s) matches Some(Chip8Op::Call(target)) && t.pc == target
            &&& t.sp == s.sp + 1
            &&& t.stack[s.sp] == s.pc + 2
            &&& forall|i: int| 0 <= i < s.sp ==> t.stack[i] == s.stack[i]
        }),
{
}

/// A call followed at once by a return leaves the program counter at the
/// instruction after the call and the stack as deep as it was.
pub proof fn lemma_call_return(s: Machine, a: u8, b: u8)
    requires
        s.wf(),
        next_op(s) matches Some(Chip8Op::Call(_)),
        s.sp < 16,
        next_op(step(s, a)) == Some(Chip8Op::Return),
    ensures
        step_fault(s) is None,
        step_fault(step(s, a)) is None,
        step(step(s, a), b).pc == s.pc + 2,
        step(step(s, a), b).sp == s.sp,
{
    lemma_call_pushes(s, a);
}

/// A cycle requests the tone exactly if it brings the sound timer from 1 to
/// 0; each timer that is not zero goes down by one.
///
/// The timers meant are those that the instruction leaves, so the law speaks
/// of the cycles whose instruction sets neither timer.
pub proof fn lemma_timers(s: Machine, random_byte: u8)
    requires
        s.wf(),
        step_fault(s) is None,
        !(next_op(s) matches Some(Chip8Op::SetSound(_))),
        !(next_op(s) matches Some(Chip8Op::SetDelay(_))),
    ensures
        ({
            let t = step(s, random_byte);
            &&& t.beep_flag == (s.sound_timer == 1)
            &&& t.sound_timer == if s.sound_timer > 0 { s.sound_timer - 1 } else { 0 }
            &&& t.delay_timer == if s.delay_timer > 0 { s.delay_timer - 1 } else { 0 }
        }),
{
}

/// With the sound timer at 1, one cycle brings it to 0 and requests the tone;
/// the cycle after that does not request it again.
pub proof fn lemma_tone_once(s: Machine, a: u8, b: u8)
    requires
        s.wf(),
        s.sound_timer == 1,
        step_fault(s) is None,
        !(next_op(s) matches Some(Chip8Op::SetSound(_))),
        !(next_op(step(s, a)) matches Some(Chip8Op::SetSound(_))),
    ensures
        step(s, a).sound_timer == 0,
        step(s, a).beep_flag,
        step(step(s, a), b).sound_timer == 0,
        !step(step(s, a), b).beep_flag,
{
    lemma_step_wf(s, a);
}

/// The wait for a key: the instruction raises the wait flag and names the
/// target register; the key that is then delivered lands in that register
/// and nowhere else, and the wait is over.
pub proof fn lemma_key_wait(s: Machine, random_byte: u8, key: u8)
    requires
        s.wf(),
        next_op(s) matches Some(Chip8Op::GetKey(_)),
    ensures
        step_fault(s) is None,
        ({
            let t = step(s, random_byte);
            let u = key_given(t, key);
            &&& t.wait_for_key_flag
            &&& next_op(s) matches Some(Chip8Op::GetKey(x)) && t.key_target == x
            &&& t.registers == s.registers
            &&& u.registers == s.registers.update(t.key_target, key)
            &&& u.registers[t.key_target] == key
            &&& !u.wait_for_key_flag
            &&& u == (Machine { registers: u.registers, wait_for_key_flag: false, ..t })
        }),
{
    lemma_decode_wf(fetched_word(s));
}

/// A key that is delivered while no wait is pending changes nothing.
pub proof fn lemma_key_without_wait(s: Machine, key: u8)
    requires
        !s.wait_for_key_flag,
    ensures
        key_given(s, key) == s,
{
}

} // verus!
