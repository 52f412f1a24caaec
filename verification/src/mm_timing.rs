//! Decision logic of Mueller-Muller symbol-timing recovery: the
//! two-tick-per-symbol timeslot machine that offset QPSK uses to capture
//! the in-phase rail half a symbol before the quadrature rail.

use vstd::prelude::*;

verus! {

/// The loop frequency may deviate from its centre by at most
/// `centre / 2^FREQ_DEV_EXP`.
pub const FREQ_DEV_EXP: u32 = 12;

/// The state the machine moves to after a tick fired in `state`:
/// 1 and 2 alternate.
pub open spec fn next_slot(state: u8) -> u8 {
    if state == 1 {
        2
    } else {
        1
    }
}

/// One step of the machine in `state`: the value returned (0 when the
/// threshold was not crossed, otherwise the state that fired) and the
/// state afterwards.
pub open spec fn tick_step(state: u8, crossed: bool) -> (u8, u8) {
    if crossed {
        (state, next_slot(state))
    } else {
        (0, state)
    }
}

/// Number of `true` entries in `s`.
pub open spec fn count_true(s: Seq<bool>) -> nat
    decreases s.len(),
{
    if s.len() == 0 {
        0
    } else {
        count_true(s.drop_last()) + if s.last() {
            1nat
        } else {
            0nat
        }
    }
}

/// State reached from `start` after one step per entry of `crossings`.
pub open spec fn run_state(start: u8, crossings: Seq<bool>) -> u8
    decreases crossings.len(),
{
    if crossings.len() == 0 {
        start
    } else {
        tick_step(run_state(start, crossings.drop_last()), crossings.last()).1
    }
}

/// Values returned by the steps taken from `start`, one per entry of
/// `crossings`.
pub open spec fn run_outputs(start: u8, crossings: Seq<bool>) -> Seq<u8>
    decreases crossings.len(),
{
    if crossings.len() == 0 {
        Seq::empty()
    } else {
        run_outputs(start, crossings.drop_last()).push(
            tick_step(run_state(start, crossings.drop_last()), crossings.last()).0,
        )
    }
}

/// Offset-QPSK timeslot machine. State 1 waits for the phase to cross
/// half a symbol (the in-phase tick), state 2 for a full symbol (the
/// quadrature tick, at the symbol boundary).
pub struct DualTimeslot {
    state: u8,
}

impl DualTimeslot {
    #[verifier::type_invariant]
    closed spec fn inv(self) -> bool {
        self.state == 1 || self.state == 2
    }

    /// The tick the machine fires next: 1 or 2.
    pub closed spec fn state(self) -> u8 {
        self.state
    }

    /// A machine waiting for the in-phase tick.
    pub fn new() -> (m: Self)
        ensures
            m.state() == 1,
    {
        DualTimeslot { state: 1 }
    }

    /// The firing threshold in half symbol periods (units of π of
    /// loop phase): 1 while waiting for the in-phase tick, 2 while
    /// waiting for the quadrature tick.
    pub fn threshold_half_turns(&self) -> (h: u8)
        ensures
            h == self.state(),
            h == 1 || h == 2,
    {
        proof {
            use_type_invariant(self);
        }
        self.state
    }

    /// Take one step: when the loop phase has `crossed` the current
    /// threshold, return the state that fired (1 or 2) and switch to
    /// the other; otherwise return 0 and stay.
    pub fn tick(&mut self, crossed: bool) -> (r: u8)
        ensures
            old(self).state() == 1 || old(self).state() == 2,
            (r, final(self).state()) == tick_step(old(self).state(), crossed),
            final(self).state() == 1 || final(self).state() == 2,
            crossed ==> r == old(self).state() && final(self).state() + old(self).state() == 3,
            !crossed ==> r == 0 && final(self).state() == old(self).state(),
    {
        proof {
            use_type_invariant(&*self);
        }
        if crossed {
            let fired = self.state;
            self.state = if fired == 1 {
                2
            } else {
                1
            };
            fired
        } else {
            0
        }
    }
}

/// One step of the machine: a crossing in state 1 fires 1 and moves to
/// state 2, a crossing in state 2 fires 2 and moves to state 1, and a
/// step without a crossing fires nothing and keeps the state.
pub proof fn lemma_tick_step_table(state: u8)
    ensures
        tick_step(1, true) == (1u8, 2u8),
        tick_step(2, true) == (2u8, 1u8),
        tick_step(state, false) == (0u8, state),
        next_slot(1) == 2,
        next_slot(2) == 1,
{
}

/// The ticks alternate: from a start state of 1 or 2, the `j`-th tick
/// that fires (counting from 0) is the start state when `j` is even and
/// the other state when `j` is odd; a step whose threshold was not
/// crossed returns 0 and leaves the state alone.
pub proof fn lemma_ticks_alternate(start: u8, crossings: Seq<bool>)
    requires
        start == 1 || start == 2,
    ensures
        run_state(start, crossings) == if count_true(crossings) % 2 == 0 {
            start
        } else {
            next_slot(start)
        },
        run_outputs(start, crossings).len() == crossings.len(),
        forall|i: int|
            0 <= i < crossings.len() ==> #[trigger] run_outputs(start, crossings)[i] == if !crossings[i] {
                0
            } else if count_true(crossings.take(i)) % 2 == 0 {
                start
            } else {
                next_slot(start)
            },
    decreases crossings.len(),
{
    if crossings.len() > 0 {
        let prev = crossings.drop_last();
        let n = crossings.len() - 1;
        lemma_ticks_alternate(start, prev);
        assert(crossings.take(n) =~= prev);
        assert forall|i: int| 0 <= i < n implies crossings.take(i) =~= prev.take(i) && crossings[i]
            == prev[i] by {}
    }
}

} // verus!
