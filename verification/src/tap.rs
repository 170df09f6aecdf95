//! The JTAG Test Access Port state machine.
//!
//! Every TAP transition is driven by exactly one TMS bit per TCK edge;
//! the state graph is fixed and adapter-independent.

use vstd::prelude::*;

verus! {

/// The 16 standard JTAG TAP states.
#[derive(Clone, Copy, Debug, PartialEq, Eq, Structural)]
pub enum TapState {
    TestLogicReset,
    RunIdle,
    SelectDR,
    CaptureDR,
    ShiftDR,
    Exit1DR,
    PauseDR,
    Exit2DR,
    UpdateDR,
    SelectIR,
    CaptureIR,
    ShiftIR,
    Exit1IR,
    PauseIR,
    Exit2IR,
    UpdateIR,
}

/// The successor of a TAP state for one TMS value clocked on one TCK edge.
pub open spec fn tap_next(s: TapState, tms: bool) -> TapState {
    match s {
        TapState::TestLogicReset => if tms { TapState::TestLogicReset } else { TapState::RunIdle },
        TapState::RunIdle => if tms { TapState::SelectDR } else { TapState::RunIdle },
        TapState::SelectDR => if tms { TapState::SelectIR } else { TapState::CaptureDR },
        TapState::CaptureDR => if tms { TapState::Exit1DR } else { TapState::ShiftDR },
        TapState::ShiftDR => if tms { TapState::Exit1DR } else { TapState::ShiftDR },
        TapState::Exit1DR => if tms { TapState::UpdateDR } else { TapState::PauseDR },
        TapState::PauseDR => if tms { TapState::Exit2DR } else { TapState::PauseDR },
        TapState::Exit2DR => if tms { TapState::UpdateDR } else { TapState::ShiftDR },
        TapState::UpdateDR => if tms { TapState::SelectDR } else { TapState::RunIdle },
        TapState::SelectIR => if tms { TapState::TestLogicReset } else { TapState::CaptureIR },
        TapState::CaptureIR => if tms { TapState::Exit1IR } else { TapState::ShiftIR },
        TapState::ShiftIR => if tms { TapState::Exit1IR } else { TapState::ShiftIR },
        TapState::Exit1IR => if tms { TapState::UpdateIR } else { TapState::PauseIR },
        TapState::PauseIR => if tms { TapState::Exit2IR } else { TapState::PauseIR },
        TapState::Exit2IR => if tms { TapState::UpdateIR } else { TapState::ShiftIR },
        TapState::UpdateIR => if tms { TapState::SelectDR } else { TapState::RunIdle },
    }
}

/// The TAP state reached by clocking a whole TMS sequence, first element first.
pub open spec fn tap_walk(s: TapState, tms: Seq<bool>) -> TapState
    decreases tms.len(),
{
    if tms.len() == 0 {
        s
    } else {
        tap_walk(tap_next(s, tms[0]), tms.drop_first())
    }
}

/// The TMS bit denoted by one element of a caller-supplied sequence:
/// zero means logic-low, any other value logic-high.
pub open spec fn tms_bools(tms: Seq<usize>) -> Seq<bool> {
    Seq::new(tms.len(), |i: int| tms[i] != 0)
}

/// A run of `n` TCK edges with TMS held low.
pub open spec fn low_run(n: nat) -> Seq<bool> {
    Seq::new(n, |i: int| false)
}

/// The TMS sequence that delivers the last data bit of a register shift:
/// `total` data edges, TMS low on all but the last, TMS high on the last
/// (leaving the Shift state), and one further TMS-low edge when the TAP
/// should come to rest in the matching Pause state.
pub open spec fn shift_tms(total: nat, pause_after: bool) -> Seq<bool>
    recommends
        total >= 1,
{
    let body = low_run((total - 1) as nat).push(true);
    if pause_after {
        body.push(false)
    } else {
        body
    }
}

/// Executable form of `tap_next`.
pub fn step_state(s: TapState, tms: bool) -> (r: TapState)
    ensures
        r == tap_next(s, tms),
{
    match s {
        TapState::TestLogicReset => if tms { TapState::TestLogicReset } else { TapState::RunIdle },
        TapState::RunIdle => if tms { TapState::SelectDR } else { TapState::RunIdle },
        TapState::SelectDR => if tms { TapState::SelectIR } else { TapState::CaptureDR },
        TapState::CaptureDR => if tms { TapState::Exit1DR } else { TapState::ShiftDR },
        TapState::ShiftDR => if tms { TapState::Exit1DR } else { TapState::ShiftDR },
        TapState::Exit1DR => if tms { TapState::UpdateDR } else { TapState::PauseDR },
        TapState::PauseDR => if tms { TapState::Exit2DR } else { TapState::PauseDR },
        TapState::Exit2DR => if tms { TapState::UpdateDR } else { TapState::ShiftDR },
        TapState::UpdateDR => if tms { TapState::SelectDR } else { TapState::RunIdle },
        TapState::SelectIR => if tms { TapState::TestLogicReset } else { TapState::CaptureIR },
        TapState::CaptureIR => if tms { TapState::Exit1IR } else { TapState::ShiftIR },
        TapState::ShiftIR => if tms { TapState::Exit1IR } else { TapState::ShiftIR },
        TapState::Exit1IR => if tms { TapState::UpdateIR } else { TapState::PauseIR },
        TapState::PauseIR => if tms { TapState::Exit2IR } else { TapState::PauseIR },
        TapState::Exit2IR => if tms { TapState::UpdateIR } else { TapState::ShiftIR },
        TapState::UpdateIR => if tms { TapState::SelectDR } else { TapState::RunIdle },
    }
}

/// Walk the TAP graph with a caller-supplied TMS sequence, zero meaning
/// low and any other value high, exactly as `change_mode` clocks it.
pub fn walk_states(s: TapState, tms: &[usize]) -> (r: TapState)
    ensures
        r == tap_walk(s, tms_bools(tms@)),
{
    let ghost all = tms_bools(tms@);
    let mut cur = s;
    let mut i: usize = 0;
    while i < tms.len()
        invariant
            i <= tms@.len(),
            all == tms_bools(tms@),
            cur == tap_walk(s, all.take(i as int)),
        decreases tms@.len() - i,
    {
        proof {
            lemma_walk_snoc(s, all, i as int);
        }
        cur = step_state(cur, tms[i] != 0);
        i = i + 1;
    }
    proof {
        assert(all.take(tms@.len() as int) =~= all);
    }
    cur
}

/// Walking a concatenation equals walking the parts in turn.
pub proof fn lemma_walk_append(s: TapState, a: Seq<bool>, b: Seq<bool>)
    ensures
        tap_walk(s, a + b) == tap_walk(tap_walk(s, a), b),
    decreases a.len(),
{
    if a.len() == 0 {
        assert(a + b =~= b);
    } else {
        assert((a + b).drop_first() =~= a.drop_first() + b);
        lemma_walk_append(tap_next(s, a[0]), a.drop_first(), b);
    }
}

/// Walking a single TMS bit is one step.
pub proof fn lemma_walk_one(s: TapState, b: bool)
    ensures
        tap_walk(s, seq![b]) == tap_next(s, b),
{
    assert(seq![b].drop_first() =~= Seq::<bool>::empty());
    assert(tap_walk(tap_next(s, b), Seq::<bool>::empty()) == tap_next(s, b));
    assert(seq![b][0] == b);
}

/// Extending a walked prefix by one TMS bit takes one more step.
pub proof fn lemma_walk_snoc(s: TapState, tms: Seq<bool>, i: int)
    requires
        0 <= i < tms.len(),
    ensures
        tap_walk(s, tms.take(i + 1)) == tap_next(tap_walk(s, tms.take(i)), tms[i]),
{
    assert(tms.take(i + 1) =~= tms.take(i) + seq![tms[i]]);
    lemma_walk_append(s, tms.take(i), seq![tms[i]]);
    lemma_walk_one(tap_walk(s, tms.take(i)), tms[i]);
}

/// Extending a low run by one edge takes one more low step.
pub proof fn lemma_low_run_snoc(s: TapState, n: nat)
    ensures
        tap_walk(s, low_run(n + 1)) == tap_next(tap_walk(s, low_run(n)), false),
{
    assert(low_run(n + 1) =~= low_run(n) + seq![false]);
    lemma_walk_append(s, low_run(n), seq![false]);
    lemma_walk_one(tap_walk(s, low_run(n)), false);
}

/// A Shift state is held for any number of TMS-low edges.
pub proof fn lemma_shift_holds(s: TapState, n: nat)
    requires
        s == TapState::ShiftDR || s == TapState::ShiftIR,
    ensures
        tap_walk(s, low_run(n)) == s,
    decreases n,
{
    if n > 0 {
        assert(low_run(n).drop_first() =~= low_run((n - 1) as nat));
        lemma_shift_holds(s, (n - 1) as nat);
    }
}

/// The last-bit-on-TMS law: a register shift of `total` data bits begun in a
/// Shift state (or in the matching Capture state, which falls into Shift on
/// the first low edge and leaves it on a high edge just as Shift does) ends
/// in the matching Exit1 state, or in the matching Pause state when
/// `pause_after` is set.
pub proof fn lemma_shift_exit(s: TapState, total: nat, pause_after: bool)
    requires
        total >= 1,
        s == TapState::ShiftDR || s == TapState::ShiftIR || s == TapState::CaptureDR
            || s == TapState::CaptureIR,
    ensures
        s == TapState::ShiftDR || s == TapState::CaptureDR ==> tap_walk(
            s,
            shift_tms(total, pause_after),
        ) == if pause_after {
            TapState::PauseDR
        } else {
            TapState::Exit1DR
        },
        s == TapState::ShiftIR || s == TapState::CaptureIR ==> tap_walk(
            s,
            shift_tms(total, pause_after),
        ) == if pause_after {
            TapState::PauseIR
        } else {
            TapState::Exit1IR
        },
{
    let n = (total - 1) as nat;
    let low = low_run(n);
    let body = low.push(true);
    assert(body =~= low + seq![true]);
    lemma_walk_append(s, low, seq![true]);
    let held = tap_walk(s, low);
    if n == 0 {
        assert(held == s);
    } else {
        let after_one = tap_next(s, false);
        assert(low.drop_first() =~= low_run((n - 1) as nat));
        lemma_shift_holds(after_one, (n - 1) as nat);
    }
    lemma_walk_one(held, true);
    let exit1 = tap_walk(s, body);
    if pause_after {
        assert(shift_tms(total, pause_after) =~= body + seq![false]);
        lemma_walk_append(s, body, seq![false]);
        lemma_walk_one(exit1, false);
    }
}

} // verus!
