use vstd::prelude::*;

use crate::chip8::{lemma_pixel_place, sprite_col, sprite_row};
use crate::machine::{
    collides, draw_covers, fault, next, sprite_bit, Fault, Machine, MEMORY_SIZE, STACK_DEPTH,
};
use crate::opcode::Opcode;

verus! {

/// The instruction at the program counter of `s`.
pub open spec fn current_op(s: Machine) -> Opcode {
    Opcode::spec_decode(s.current_word())
}

/// `7xkk` adds `kk` to Vx modulo 256 and leaves every other register,
/// VF among them, as it was.
pub proof fn add_immediate_wraps_without_flag(s: Machine, random: u8)
    requires
        s.wf(),
        s.pc + 1 < MEMORY_SIZE,
        current_op(s).leading == 0x7,
    ensures
        fault(s) is None,
        next(s, random).v[current_op(s).x as int] == (s.v[current_op(s).x as int] + current_op(s).kk) % 256,
        forall|r: int| 0 <= r < 16 && r != current_op(s).x ==> next(s, random).v[r] == s.v[r],
{
}

/// Drawing one sprite twice at one place, by the same `Dxyn` at two
/// consecutive addresses (with x and y other than F), gives back the display
/// as it was. The first draw reports a collision where it erased a lit
/// pixel; the second reports one exactly where the first lit a pixel.
pub proof fn draw_twice_restores_display(s: Machine, r1: u8, r2: u8)
    requires
        s.wf(),
        s.pc + 3 < MEMORY_SIZE,
        s.memory[s.pc + 2] == s.memory[s.pc as int],
        s.memory[s.pc + 3] == s.memory[s.pc + 1],
        current_op(s).leading == 0xD,
        current_op(s).x != 15,
        current_op(s).y != 15,
        fault(s) is None,
    ensures
        fault(next(s, r1)) is None,
        next(next(s, r1), r2).display == s.display,
        next(s, r1).v[15] == 1 <==> collides(s, current_op(s)),
        next(next(s, r1), r2).v[15] == 1 <==> exists|p: int|
            0 <= p < s.display.len() && !s.display[p] && #[trigger] draw_covers(s, current_op(s), p),
{
    let op = current_op(s);
    let s1 = next(s, r1);
    let s2 = next(s1, r2);
    assert(s1.current_word() == s.current_word());
    assert(current_op(s1) == op);
    assert forall|p: int| #[trigger] draw_covers(s1, op, p) == draw_covers(s, op, p) by {}
    assert(s2.display =~= s.display);
    if collides(s1, op) {
        let w = choose|p: int| 0 <= p < s1.display.len() && s1.display[p] && #[trigger] draw_covers(s1, op, p);
        assert(draw_covers(s, op, w));
    }
    if exists|p: int| 0 <= p < s.display.len() && !s.display[p] && #[trigger] draw_covers(s, op, p) {
        let w = choose|p: int| 0 <= p < s.display.len() && !s.display[p] && #[trigger] draw_covers(s, op, p);
        assert(draw_covers(s1, op, w));
    }
}

/// A call pushes its own address; a return that finds the stack as the call
/// left it (whatever ran between) resumes after the call with the stack
/// pointer as before the call.
pub proof fn call_then_return_resumes_after_call(s: Machine, t: Machine, r1: u8, r2: u8)
    requires
        s.wf(),
        s.pc + 1 < MEMORY_SIZE,
        current_op(s).leading == 0x2,
        s.sp < STACK_DEPTH,
        t.wf(),
        t.pc + 1 < MEMORY_SIZE,
        t.current_word() == 0x00EE,
        t.sp == next(s, r1).sp,
        t.stack == next(s, r1).stack,
    ensures
        fault(s) is None,
        fault(t) is None,
        next(t, r2).pc == s.pc + 2,
        next(t, r2).sp == s.sp,
{
}

/// A call with all sixteen stack slots in use is a fault.
pub proof fn call_on_full_stack_faults(s: Machine)
    requires
        s.wf(),
        s.pc + 1 < MEMORY_SIZE,
        current_op(s).leading == 0x2,
        s.sp == STACK_DEPTH,
    ensures
        fault(s) == Some(Fault::StackOverflow),
{
}

/// Whether the instruction at the program counter of `s` is `Fx15`.
pub open spec fn sets_delay(s: Machine) -> bool {
    current_op(s).leading == 0xF && current_op(s).kk == 0x15
}

/// The machine after one step for each byte of `randoms`, each drawn for
/// its step.
pub open spec fn run_steps(s: Machine, randoms: Seq<u8>) -> Machine
    decreases randoms.len(),
{
    if randoms.len() == 0 {
        s
    } else {
        run_steps(next(s, randoms[0]), randoms.drop_first())
    }
}

/// Whether each of the steps of `run_steps(s, randoms)` runs without a
/// fault and sets no delay.
pub open spec fn steps_keep_delay(s: Machine, randoms: Seq<u8>) -> bool
    decreases randoms.len(),
{
    randoms.len() == 0 || (fault(s) is None && !sets_delay(s) && steps_keep_delay(
        next(s, randoms[0]),
        randoms.drop_first(),
    ))
}

/// Without an instruction that sets it, the delay timer loses one per step
/// and stays at zero once there.
pub proof fn delay_timer_decays(s: Machine, randoms: Seq<u8>)
    requires
        steps_keep_delay(s, randoms),
    ensures
        run_steps(s, randoms).delay == (if s.delay >= randoms.len() { s.delay - randoms.len() } else { 0 }),
    decreases randoms.len(),
{
    if randoms.len() > 0 {
        delay_timer_decays(next(s, randoms[0]), randoms.drop_first());
    }
}

/// Each pixel of a sprite's first row lands on the row of Vy (modulo the
/// height) and the column Vx + c modulo the width: past the right edge it
/// wraps to the left one.
pub proof fn sprite_row_wraps_around(s: Machine, random: u8, c: int)
    requires
        s.wf(),
        fault(s) is None,
        current_op(s).leading == 0xD,
        current_op(s).n > 0,
        0 <= c < 8,
    ensures
        ({
            let op = current_op(s);
            let vx = s.v[op.x as int];
            let vy = s.v[op.y as int];
            let x = (vx + c) % 64;
            let y = (vy % 32) as int;
            next(s, random).pixel(x, y) == (s.pixel(x, y) != sprite_bit(s.memory[s.index as int], c))
        }),
{
    let op = current_op(s);
    let vx = s.v[op.x as int];
    let vy = s.v[op.y as int];
    lemma_pixel_place(vx, vy, 0, c);
    let p = ((vy + 0) % 32) * 64 + (vx + c) % 64;
    assert(sprite_col(vx, p) == c && sprite_row(vy, p) == 0);
    assert(draw_covers(s, op, p) == sprite_bit(s.memory[s.index as int], c));
}

} // verus!
