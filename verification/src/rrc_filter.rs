//! Index logic of the polyphase interpolating root-raised-cosine
//! matched filter: the circular history of input samples and the
//! layout of the prototype taps into sub-filters.

use vstd::prelude::*;

verus! {

/// RRC design order.
pub const RRC_ORDER: usize = 32;

/// Polyphase interpolation factor: sub-filters per input sample.
pub const INTERP_FACTOR: usize = 5;

/// Per-phase sub-filter length, `order * 2 + 1`.
pub const NUM_TAPS: usize = 65;

/// Prototype length, `NUM_TAPS * INTERP_FACTOR`.
pub const NUM_COEFFS: usize = 325;

/// The bank sizes follow the design order: each sub-filter has
/// `order * 2 + 1` taps and the prototype has one sub-filter's worth
/// per interpolation phase.
pub proof fn lemma_bank_sizes()
    ensures
        NUM_TAPS == RRC_ORDER * 2 + 1,
        NUM_COEFFS == NUM_TAPS * INTERP_FACTOR,
{
}

/// Prototype tap index that sub-filter `subfilter` uses at position
/// `tap`: the prototype is decimated by `INTERP_FACTOR`, sub-filter
/// `subfilter` taking every `INTERP_FACTOR`-th tap from offset
/// `subfilter`.
pub open spec fn polyphase_stage(subfilter: int, tap: int) -> int {
    tap * INTERP_FACTOR + subfilter
}

/// Slot of the coefficient bank, in sub-filter-major order, that holds
/// tap `tap` of sub-filter `subfilter`.
pub open spec fn bank_slot(subfilter: int, tap: int) -> int {
    subfilter * NUM_TAPS + tap
}

/// Absolute distance of prototype tap `stage_no` from the centre tap
/// `(taps - 1) / 2` of a `taps`-long prototype.
pub open spec fn center_distance(stage_no: int, taps: int) -> int {
    let order = (taps - 1) / 2;
    if order >= stage_no { order - stage_no } else { stage_no - order }
}

/// The distance to the centre tap is the absolute difference: the tap
/// lies exactly `center_distance` taps before or after the centre
/// `(taps - 1) / 2`, and that distance is never negative; so it is zero
/// exactly at the centre and grows by one per tap stepped away from it,
/// on either side.
pub proof fn lemma_center_distance_is_absolute_difference(stage_no: int, taps: int)
    requires
        taps >= 1,
        stage_no >= 0,
    ensures
        center_distance(stage_no, taps) >= 0,
        stage_no + center_distance(stage_no, taps) == (taps - 1) / 2 || stage_no - center_distance(
            stage_no,
            taps,
        ) == (taps - 1) / 2,
        stage_no <= (taps - 1) / 2 ==> center_distance(stage_no, taps) == (taps - 1) / 2 - stage_no,
        stage_no >= (taps - 1) / 2 ==> center_distance(stage_no, taps) == stage_no - (taps - 1) / 2,
        (center_distance(stage_no, taps) == 0) == (stage_no == (taps - 1) / 2),
        stage_no < (taps - 1) / 2 ==> center_distance(stage_no + 1, taps) + 1 == center_distance(
            stage_no,
            taps,
        ),
        stage_no >= (taps - 1) / 2 ==> center_distance(stage_no + 1, taps) == center_distance(
            stage_no,
            taps,
        ) + 1,
{
}

/// The prototype stage index stored in each slot of the coefficient
/// bank: slot `subfilter * NUM_TAPS + tap` receives prototype tap
/// `tap * INTERP_FACTOR + subfilter`.
pub fn polyphase_layout() -> (v: Vec<usize>)
    ensures
        v.len() == NUM_COEFFS,
        forall|sf: int, t: int|
            0 <= sf < INTERP_FACTOR && 0 <= t < NUM_TAPS ==> #[trigger] v@[bank_slot(sf, t)]
                == polyphase_stage(sf, t),
        forall|sf: int, t: int|
            0 <= sf < INTERP_FACTOR && 0 <= t < NUM_TAPS ==> #[trigger] v@[sf * 65 + t] == t * 5
                + sf,
{
    let mut v: Vec<usize> = Vec::new();
    let mut j: usize = 0;
    while j < INTERP_FACTOR
        invariant
            j <= INTERP_FACTOR,
            v.len() == j * NUM_TAPS,
            forall|sf: int, t: int|
                0 <= sf < j && 0 <= t < NUM_TAPS ==> #[trigger] v@[bank_slot(sf, t)]
                    == polyphase_stage(sf, t),
        decreases INTERP_FACTOR - j,
    {
        let mut i: usize = 0;
        while i < NUM_TAPS
            invariant
                j < INTERP_FACTOR,
                i <= NUM_TAPS,
                v.len() == j * NUM_TAPS + i,
                forall|sf: int, t: int|
                    0 <= sf < j && 0 <= t < NUM_TAPS ==> #[trigger] v@[bank_slot(sf, t)]
                        == polyphase_stage(sf, t),
                forall|t: int| 0 <= t < i ==> #[trigger] v@[bank_slot(j as int, t)]
                    == polyphase_stage(j as int, t),
            decreases NUM_TAPS - i,
        {
            v.push(i * INTERP_FACTOR + j);
            i = i + 1;
        }
        j = j + 1;
    }
    assert forall|sf: int, t: int|
        0 <= sf < INTERP_FACTOR && 0 <= t < NUM_TAPS implies #[trigger] v@[sf * 65 + t] == t * 5
        + sf by {
        assert(v@[bank_slot(sf, t)] == polyphase_stage(sf, t));
    }
    v
}

/// Start of the sub-filter that evaluates fractional phase `phase`
/// within the coefficient bank; `None` for a phase outside
/// `0..INTERP_FACTOR`. The sub-filters are walked in reverse, so phase
/// `phase` reads sub-filter `INTERP_FACTOR - phase - 1`.
pub fn subfilter_start(phase: usize) -> (r: Option<usize>)
    ensures
        phase >= INTERP_FACTOR ==> r is None,
        phase < INTERP_FACTOR ==> r == Some(
            bank_slot(INTERP_FACTOR - phase - 1, 0) as usize,
        ),
        phase < INTERP_FACTOR ==> (r matches Some(b) && b == (INTERP_FACTOR - 1 - phase)
            * NUM_TAPS && b + NUM_TAPS <= NUM_COEFFS),
{
    if phase >= INTERP_FACTOR {
        None
    } else {
        Some((INTERP_FACTOR - phase - 1) * NUM_TAPS)
    }
}

/// Distance of prototype tap `stage_no` from the centre of a
/// `taps`-long prototype; zero exactly at the centre tap.
pub fn center_offset(stage_no: usize, taps: usize) -> (d: usize)
    requires
        taps >= 1,
    ensures
        d == center_distance(stage_no as int, taps as int),
        stage_no + d == (taps - 1) / 2 || stage_no == (taps - 1) / 2 + d,
        stage_no <= (taps - 1) / 2 ==> d == (taps - 1) / 2 - stage_no,
        stage_no >= (taps - 1) / 2 ==> d == stage_no - (taps - 1) / 2,
{
    let order = (taps - 1) / 2;
    if order >= stage_no {
        order - stage_no
    } else {
        stage_no - order
    }
}

/// Sub-filter that prototype tap `s` falls into.
pub open spec fn stage_subfilter(s: int) -> int {
    s % (INTERP_FACTOR as int)
}

/// Position of prototype tap `s` within its sub-filter.
pub open spec fn stage_tap(s: int) -> int {
    s / (INTERP_FACTOR as int)
}

/// Fractional phase whose evaluation reads prototype tap `s`.
pub open spec fn stage_phase(s: int) -> int {
    INTERP_FACTOR - 1 - stage_subfilter(s)
}

/// Prototype tap that weights the `k`-th oldest history sample when
/// fractional phase `phase` is evaluated.
pub open spec fn phase_tap(phase: int, k: int) -> int {
    polyphase_stage(INTERP_FACTOR - 1 - phase, k)
}

/// Polyphase decomposition is a relabelling of the prototype: the pair
/// (sub-filter, tap) ranges over `0..INTERP_FACTOR` x `0..NUM_TAPS` and
/// maps one-to-one onto the prototype taps `0..NUM_COEFFS`.
pub proof fn lemma_polyphase_is_bijection()
    ensures
        forall|sf: int, t: int|
            0 <= sf < INTERP_FACTOR && 0 <= t < NUM_TAPS ==> 0 <= #[trigger] polyphase_stage(sf, t)
                < NUM_COEFFS && 0 <= bank_slot(sf, t) < NUM_COEFFS,
        forall|sf1: int, t1: int, sf2: int, t2: int|
            0 <= sf1 < INTERP_FACTOR && 0 <= t1 < NUM_TAPS && 0 <= sf2 < INTERP_FACTOR && 0 <= t2
                < NUM_TAPS && #[trigger] polyphase_stage(sf1, t1) == #[trigger] polyphase_stage(
                sf2,
                t2,
            ) ==> sf1 == sf2 && t1 == t2,
        forall|s: int|
            0 <= s < NUM_COEFFS ==> 0 <= stage_subfilter(s) < INTERP_FACTOR && 0 <= stage_tap(s)
                < NUM_TAPS && #[trigger] polyphase_stage(stage_subfilter(s), stage_tap(s)) == s,
{
    assert forall|sf1: int, t1: int, sf2: int, t2: int|
        0 <= sf1 < INTERP_FACTOR && 0 <= t1 < NUM_TAPS && 0 <= sf2 < INTERP_FACTOR && 0 <= t2
            < NUM_TAPS && #[trigger] polyphase_stage(sf1, t1) == #[trigger] polyphase_stage(
            sf2,
            t2,
        ) implies sf1 == sf2 && t1 == t2 by {
        if t1 < t2 {
            assert(t1 * 5 + 5 <= t2 * 5);
        } else if t2 < t1 {
            assert(t2 * 5 + 5 <= t1 * 5);
        }
    }
}

/// Evaluating every fractional phase against every history position
/// uses each prototype tap exactly once, and the coefficient that
/// phase `phase` reads at offset `k` from its sub-filter start is
/// prototype tap `k * INTERP_FACTOR + INTERP_FACTOR - 1 - phase`.
pub proof fn lemma_phase_walk_covers_prototype(layout: Seq<usize>)
    requires
        layout.len() == NUM_COEFFS,
        forall|sf: int, t: int|
            0 <= sf < INTERP_FACTOR && 0 <= t < NUM_TAPS ==> #[trigger] layout[bank_slot(sf, t)]
                == polyphase_stage(sf, t),
    ensures
        forall|phase: int, k: int|
            0 <= phase < INTERP_FACTOR && 0 <= k < NUM_TAPS ==> #[trigger] layout[bank_slot(
                INTERP_FACTOR - 1 - phase,
                0,
            ) + k] == phase_tap(phase, k) && phase_tap(phase, k) == k * INTERP_FACTOR
                + INTERP_FACTOR - 1 - phase,
        forall|p1: int, k1: int, p2: int, k2: int|
            0 <= p1 < INTERP_FACTOR && 0 <= k1 < NUM_TAPS && 0 <= p2 < INTERP_FACTOR && 0 <= k2
                < NUM_TAPS && #[trigger] phase_tap(p1, k1) == #[trigger] phase_tap(p2, k2) ==> p1
                == p2 && k1 == k2,
        forall|s: int|
            0 <= s < NUM_COEFFS ==> 0 <= stage_phase(s) < INTERP_FACTOR && 0 <= stage_tap(s)
                < NUM_TAPS && #[trigger] phase_tap(stage_phase(s), stage_tap(s)) == s,
{
    lemma_polyphase_is_bijection();
    assert forall|phase: int, k: int|
        0 <= phase < INTERP_FACTOR && 0 <= k < NUM_TAPS implies #[trigger] layout[bank_slot(
        INTERP_FACTOR - 1 - phase,
        0,
    ) + k] == phase_tap(phase, k) && phase_tap(phase, k) == k * INTERP_FACTOR + INTERP_FACTOR
        - 1 - phase by {
        assert(bank_slot(INTERP_FACTOR - 1 - phase, 0) + k == bank_slot(
            INTERP_FACTOR - 1 - phase,
            k,
        ));
    }
    assert forall|p1: int, k1: int, p2: int, k2: int|
        0 <= p1 < INTERP_FACTOR && 0 <= k1 < NUM_TAPS && 0 <= p2 < INTERP_FACTOR && 0 <= k2
            < NUM_TAPS && #[trigger] phase_tap(p1, k1) == #[trigger] phase_tap(p2, k2) implies p1
        == p2 && k1 == k2 by {
        assert(polyphase_stage(INTERP_FACTOR - 1 - p1, k1) == polyphase_stage(
            INTERP_FACTOR - 1 - p2,
            k2,
        ));
    }
    assert forall|s: int| 0 <= s < NUM_COEFFS implies 0 <= stage_phase(s) < INTERP_FACTOR && 0
        <= stage_tap(s) < NUM_TAPS && #[trigger] phase_tap(stage_phase(s), stage_tap(s)) == s by {
        assert(polyphase_stage(stage_subfilter(s), stage_tap(s)) == s);
    }
}

/// Window left after pushing the samples of `pushed`, in order, onto
/// a history whose window is `w`.
pub open spec fn push_all<T>(w: Seq<T>, pushed: Seq<T>) -> Seq<T>
    decreases pushed.len(),
{
    if pushed.len() == 0 {
        w
    } else {
        push_all(w, pushed.drop_last()).drop_first().push(pushed.last())
    }
}

/// The history is a sliding window: after any run of pushes it holds
/// exactly the last `NUM_TAPS` samples of the initial window followed
/// by everything pushed, oldest first.
pub proof fn lemma_history_is_sliding_window<T>(w: Seq<T>, pushed: Seq<T>)
    requires
        w.len() == NUM_TAPS,
    ensures
        push_all(w, pushed) == (w + pushed).subrange(
            pushed.len() as int,
            pushed.len() + NUM_TAPS,
        ),
    decreases pushed.len(),
{
    if pushed.len() > 0 {
        let n = pushed.len() as int;
        lemma_history_is_sliding_window(w, pushed.drop_last());
        assert((w + pushed.drop_last()) =~= (w + pushed).drop_last());
        assert(push_all(w, pushed) =~= (w + pushed).subrange(n, n + NUM_TAPS));
    } else {
        assert(w + pushed =~= w);
    }
}

/// Circular history of the last [`NUM_TAPS`] input samples, read back
/// oldest first.
pub struct TapHistory<T> {
    mem: Vec<T>,
    idx: usize,
}

impl<T> TapHistory<T> {
    /// Well-formedness: a full ring of `NUM_TAPS` slots and a write
    /// cursor inside it.
    pub closed spec fn wf(self) -> bool {
        &&& self.mem.len() == NUM_TAPS
        &&& self.idx < NUM_TAPS
    }

    /// The history, oldest sample first: element `k` is the sample
    /// pushed `NUM_TAPS - k` pushes ago.
    pub closed spec fn window(self) -> Seq<T> {
        Seq::new(NUM_TAPS as nat, |k: int| self.mem@[(self.idx + k) % (NUM_TAPS as int)])
    }
}

/// Every history window holds exactly `NUM_TAPS` samples.
pub proof fn lemma_window_len<T>(h: TapHistory<T>)
    ensures
        h.window().len() == NUM_TAPS,
{
}

/// Pushing `NUM_TAPS` or more samples forgets everything before them:
/// from any starting window, the history then holds the last
/// `NUM_TAPS` samples pushed, oldest first, and nothing else. Two
/// histories fed the same last `NUM_TAPS` samples therefore agree.
pub proof fn lemma_refill_forgets_history<T>(w1: Seq<T>, w2: Seq<T>, pushed: Seq<T>)
    requires
        w1.len() == NUM_TAPS,
        w2.len() == NUM_TAPS,
        pushed.len() >= NUM_TAPS,
    ensures
        push_all(w1, pushed) == pushed.subrange(pushed.len() - NUM_TAPS, pushed.len() as int),
        push_all(w1, pushed) == push_all(w2, pushed),
{
    let n = pushed.len() as int;
    lemma_history_is_sliding_window(w1, pushed);
    lemma_history_is_sliding_window(w2, pushed);
    assert((w1 + pushed).subrange(n, n + NUM_TAPS) =~= pushed.subrange(n - NUM_TAPS, n));
    assert((w2 + pushed).subrange(n, n + NUM_TAPS) =~= pushed.subrange(n - NUM_TAPS, n));
}

impl<T: Copy> TapHistory<T> {
    /// A history whose every slot holds `fill`.
    pub fn new(fill: T) -> (h: Self)
        ensures
            h.wf(),
            h.window().len() == NUM_TAPS,
            h.window() == Seq::new(NUM_TAPS as nat, |k: int| fill),
    {
        let mut mem: Vec<T> = Vec::new();
        let mut n: usize = 0;
        while n < NUM_TAPS
            invariant
                n <= NUM_TAPS,
                mem@ == Seq::new(n as nat, |k: int| fill),
            decreases NUM_TAPS - n,
        {
            mem.push(fill);
            n = n + 1;
        }
        let h = TapHistory { mem, idx: 0 };
        assert(h.window() =~= Seq::new(NUM_TAPS as nat, |k: int| fill));
        h
    }

    /// Append one sample, dropping the oldest.
    pub fn push(&mut self, sample: T)
        requires
            old(self).wf(),
        ensures
            final(self).wf(),
            old(self).window().len() == NUM_TAPS,
            final(self).window().len() == NUM_TAPS,
            final(self).window() == old(self).window().drop_first().push(sample),
    {
        let ghost before = self.window();
        let i = self.idx;
        self.mem.set(i, sample);
        self.idx = (i + 1) % NUM_TAPS;
        assert(self.window() =~= before.drop_first().push(sample));
    }

    /// The `k`-th oldest sample of the history.
    pub fn sample(&self, k: usize) -> (s: T)
        requires
            self.wf(),
            k < NUM_TAPS,
        ensures
            s == self.window()[k as int],
    {
        let i = if k < NUM_TAPS - self.idx { self.idx + k } else { k - (NUM_TAPS - self.idx) };
        self.mem[i]
    }
}

} // verus!
