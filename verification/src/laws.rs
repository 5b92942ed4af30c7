//! Laws of the machine, stated over the step model and proved once for all
//! states.

use vstd::prelude::*;

use crate::errors::VmError;
use crate::inst::Instruction;
use crate::step::{
    cycle_ok, draw_covers, run_cycles, sat_dec, step_err, step_ok, timers_decremented, State,
};

verus! {

/// A subroutine call followed by a return restores the machine exactly: the
/// call pushes the current program counter and jumps, the return pops it
/// back, so the pre-call state is recovered whole.
pub proof fn lemma_call_return_round_trip(s: State, nnn: u16, mid: State, post: State)
    requires
        step_ok(s, Instruction::SubroutineCall2NNN(nnn), mid),
        step_ok(mid, Instruction::SubroutineReturn00EE, post),
    ensures
        post == s,
{
    assert(mid.stack == s.stack.push(s.pc));
    assert(post.stack =~= s.stack);
    assert(post.pc == s.pc);
    assert(post =~~= s);
}

/// A return on an empty call stack is a stack-underflow error, never a
/// silent no-op: no post-state satisfies the step relation.
pub proof fn lemma_return_underflow(s: State)
    requires
        s.stack.len() == 0,
    ensures
        step_err(s, Instruction::SubroutineReturn00EE) == Some(VmError::StackUnderflow),
        forall|post: State| !step_ok(s, Instruction::SubroutineReturn00EE, post),
{
}

/// While a get-key instruction is pending, a cycle changes nothing: the
/// machine stalls until a key press resolves the wait.
pub proof fn lemma_key_wait_stalls(s: State, t: State)
    requires
        s.waiting is Some,
        cycle_ok(s, t),
    ensures
        t == s,
{
}

/// A sprite is clipped at the screen edges, never wrapped: every cell a draw
/// touches lies inside the screen, at or to the right of the origin column
/// and at or below the origin row.
pub proof fn lemma_draw_clips(s: State, x0: int, y0: int, n: int, cx: int, cy: int)
    requires
        draw_covers(s, x0, y0, n, cx, cy),
    ensures
        x0 <= cx < 64,
        y0 <= cy < 32,
{
}

/// A whole tick on a machine that waits for a key does nothing but
/// decrement the timers: every cycle of the tick stalls, so instruction
/// execution resumes only once a key press clears the wait.
pub proof fn lemma_waiting_tick_only_ticks_timers(pre: State, post: State, k: nat)
    requires
        pre.waiting is Some,
        run_cycles(timers_decremented(pre), post, k),
    ensures
        post == timers_decremented(pre),
    decreases k,
{
    if k > 0 {
        let mid = choose|mid: State|
            run_cycles(timers_decremented(pre), mid, (k - 1) as nat) && cycle_ok(mid, post);
        lemma_waiting_tick_only_ticks_timers(pre, mid, (k - 1) as nat);
        lemma_key_wait_stalls(mid, post);
    }
}

/// A timer decrement saturates at zero: a zero timer stays zero, a nonzero
/// timer goes down by exactly one, and never wraps.
pub proof fn lemma_timer_saturation(s: State)
    ensures
        timers_decremented(s).sound == sat_dec(s.sound),
        timers_decremented(s).delay == sat_dec(s.delay),
        s.sound == 0 ==> timers_decremented(s).sound == 0,
        s.sound > 0 ==> timers_decremented(s).sound == s.sound - 1,
        s.delay == 0 ==> timers_decremented(s).delay == 0,
        s.delay > 0 ==> timers_decremented(s).delay == s.delay - 1,
{
}

} // verus!
