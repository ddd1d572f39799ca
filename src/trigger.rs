//! Trigger producers: the per-tick decision of whether a note fires.
use crate::random::{draw_ratio, rng_from_entropy};
use vstd::prelude::*;

verus! {

/// Whether a note fires on a tick.
#[derive(Clone, Copy, Debug, PartialEq, Eq, Structural)]
pub enum Trigger {
    Off,
    On,
}

impl Trigger {
    pub fn from_bool(b: bool) -> (r: Trigger)
        ensures
            r == (if b {
                Trigger::On
            } else {
                Trigger::Off
            }),
    {
        if b {
            Trigger::On
        } else {
            Trigger::Off
        }
    }
}

/// Fires on each tick with probability `numerator / denominator`.
pub struct RandomTriggerProducer {
    rng: rand::rngs::SmallRng,
    numerator: u32,
    denominator: u32,
}

impl RandomTriggerProducer {
    /// The firing probability as a pair (numerator, denominator).
    pub closed spec fn probability(&self) -> (int, int) {
        (self.numerator as int, self.denominator as int)
    }

    pub open spec fn wf(&self) -> bool {
        0 <= self.probability().0 <= self.probability().1 && self.probability().1 > 0
    }

    /// Fires for sure.
    pub open spec fn always(&self) -> bool {
        self.probability().0 == self.probability().1
    }

    /// Never fires.
    pub open spec fn never(&self) -> bool {
        self.probability().0 == 0
    }

    /// A producer that fires on every tick.
    pub fn new() -> (r: RandomTriggerProducer)
        ensures
            r.wf(),
            r.probability() == (1int, 1int),
    {
        RandomTriggerProducer { rng: rng_from_entropy(), numerator: 1, denominator: 1 }
    }

    /// A producer that fires with probability `numerator / denominator`.
    pub fn with_probability(numerator: u32, denominator: u32) -> (r: RandomTriggerProducer)
        requires
            0 < denominator,
            numerator <= denominator,
        ensures
            r.wf(),
            r.probability() == (numerator as int, denominator as int),
    {
        RandomTriggerProducer { rng: rng_from_entropy(), numerator, denominator }
    }

    pub fn tick(&mut self) -> (r: Trigger)
        requires
            old(self).wf(),
        ensures
            final(self).probability() == old(self).probability(),
            old(self).always() ==> r == Trigger::On,
            old(self).never() ==> r == Trigger::Off,
    {
        Trigger::from_bool(draw_ratio(&mut self.rng, self.numerator, self.denominator))
    }
}

/// What a tick of `input` that returned `r` can have done: a producer that
/// fires for sure fired, one that never fires did not.
pub open spec fn polled(input: RandomTriggerProducer, r: Trigger) -> bool {
    &&& input.always() ==> r == Trigger::On
    &&& input.never() ==> r == Trigger::Off
}

/// Passes on the wrapped producer's decision once every `factor` ticks and is
/// silent in between.
pub struct ClockDivider {
    factor: u32,
    counter: u32,
    input: RandomTriggerProducer,
}

impl ClockDivider {
    /// (factor, counter)
    pub closed spec fn state(&self) -> (int, int) {
        (self.factor as int, self.counter as int)
    }

    pub closed spec fn input(&self) -> RandomTriggerProducer {
        self.input
    }

    pub open spec fn wf(&self) -> bool {
        &&& 1 <= self.state().0
        &&& 0 <= self.state().1 <= self.state().0
        &&& self.input().wf()
    }

    pub fn new(input: RandomTriggerProducer, factor: u32) -> (r: ClockDivider)
        requires
            input.wf(),
            factor >= 1,
        ensures
            r.wf(),
            r.state() == (factor as int, 0int),
            r.input() == input,
    {
        ClockDivider { factor, counter: 0, input }
    }

    pub fn tick(&mut self) -> (r: Trigger)
        requires
            old(self).wf(),
        ensures
            final(self).wf(),
            final(self).state().0 == old(self).state().0,
            final(self).input().probability() == old(self).input().probability(),
            ({
                let (f, c) = old(self).state();
                if c == 0 || c == f {
                    final(self).state().1 == 1 && polled(old(self).input(), r)
                } else {
                    final(self).state().1 == c + 1 && r == Trigger::Off
                }
            }),
    {
        let trigger = if self.counter == 0 || self.counter == self.factor {
            self.counter = 0;
            self.input.tick()
        } else {
            Trigger::Off
        };
        self.counter = self.counter + 1;
        trigger
    }
}

// ---------------------------------------------------------------------------
// Rhythm divider

/// The state of a rhythm divider: raw ticks per beat, the raw-tick counter,
/// the notes of each of the four slots, the current slot, and the notes
/// fired in it.
pub struct RhythmState {
    pub factor: int,
    pub counter: int,
    pub notes_per_beat: Seq<u32>,
    pub beat_index: int,
    pub beat_note: int,
}

/// Raw ticks between two notes of a slot with `notes` notes per beat:
/// `factor / notes` rounded up.
pub open spec fn note_period(factor: int, notes: int) -> int {
    (factor + notes - 1) / notes
}

/// The smallest multiple of `p` that is at least `factor`.
pub open spec fn counter_bound(factor: int, p: int) -> int {
    p * ((factor + p - 1) / p)
}

/// The largest beat grouping factor for which the counter cannot overflow.
pub const MAX_FACTOR: u32 = 0x7fff_ffff;

impl RhythmState {
    pub open spec fn period(self) -> int {
        note_period(self.factor, self.notes_per_beat[self.beat_index] as int)
    }

    pub open spec fn wf(self) -> bool {
        &&& 1 <= self.factor <= MAX_FACTOR
        &&& self.notes_per_beat.len() == 4
        &&& forall|i: int| 0 <= i < 4 ==> #[trigger] self.notes_per_beat[i] >= 1
        &&& 0 <= self.beat_index < 4
        &&& 0 <= self.beat_note <= u32::MAX
        &&& 0 <= self.counter <= counter_bound(self.factor, self.period())
    }

    /// The state after the slot check at the start of a tick: a slot that has
    /// fired all its notes when the counter reaches a full beat gives way to
    /// the next.
    pub open spec fn slot_checked(self) -> RhythmState {
        if self.beat_note == self.notes_per_beat[self.beat_index] as int && self.counter == self.factor {
            RhythmState { beat_index: (self.beat_index + 1) % 4, beat_note: 0, ..self }
        } else {
            self
        }
    }

    /// Whether this tick is a note boundary.
    pub open spec fn fires(self) -> bool {
        let s = self.slot_checked();
        s.counter % s.period() == 0
    }

    /// The state after one tick.
    pub open spec fn next(self) -> RhythmState {
        let s = self.slot_checked();
        if self.fires() {
            RhythmState {
                counter: 1,
                beat_note: if s.beat_note < u32::MAX {
                    s.beat_note + 1
                } else {
                    s.beat_note
                },
                ..s
            }
        } else {
            RhythmState { counter: s.counter + 1, ..s }
        }
    }
}

proof fn lemma_period_bounds(factor: int, notes: int)
    requires
        1 <= factor,
        1 <= notes,
    ensures
        1 <= note_period(factor, notes) <= factor,
        factor <= counter_bound(factor, note_period(factor, notes)) <= 2 * factor - 1,
        counter_bound(factor, note_period(factor, notes)) % note_period(factor, notes) == 0,
{
    let p = note_period(factor, notes);
    assert(1 <= p <= factor) by (nonlinear_arith)
        requires p == (factor + notes - 1) / notes, 1 <= factor, 1 <= notes;
    let q = (factor + p - 1) / p;
    vstd::arithmetic::div_mod::lemma_fundamental_div_mod(factor + p - 1, p);
    vstd::arithmetic::div_mod::lemma_mod_bound(factor + p - 1, p);
    assert(p * q == factor + p - 1 - (factor + p - 1) % p) by (nonlinear_arith)
        requires factor + p - 1 == p * ((factor + p - 1) / p) + (factor + p - 1) % p, q == (factor + p - 1) / p;
    vstd::arithmetic::div_mod::lemma_mod_multiples_basic(q, p);
    assert(q * p == p * q) by (nonlinear_arith);
}

/// What one tick of a rhythm divider `before` returning `r` and leaving
/// `after` means.
pub open spec fn divider_ticked(before: RhythmDivider, after: RhythmDivider, r: Trigger) -> bool {
    &&& after.wf()
    &&& after@ == before@.next()
    &&& after.input().probability() == before.input().probability()
    &&& before@.fires() ==> polled(before.input(), r)
    &&& !before@.fires() ==> r == Trigger::Off
}

/// Turns a dense stream of raw ticks into notes spaced by a four-slot beat
/// grouping: slot `i` places `notes_per_beat[i]` notes in a beat of `factor`
/// raw ticks, and only on a note boundary is the wrapped producer asked.
pub struct RhythmDivider {
    factor: u32,
    counter: u32,
    notes_per_beat: [u32; 4],
    current_beat_index: u32,
    current_beat_note: u32,
    input: RandomTriggerProducer,
}

impl View for RhythmDivider {
    type V = RhythmState;

    closed spec fn view(&self) -> RhythmState {
        RhythmState {
            factor: self.factor as int,
            counter: self.counter as int,
            notes_per_beat: self.notes_per_beat@,
            beat_index: self.current_beat_index as int,
            beat_note: self.current_beat_note as int,
        }
    }
}

impl RhythmDivider {
    pub closed spec fn input(&self) -> RandomTriggerProducer {
        self.input
    }

    pub open spec fn wf(&self) -> bool {
        self@.wf() && self.input().wf()
    }

    pub fn new(input: RandomTriggerProducer, factor: u32, notes_per_beat: [u32; 4]) -> (r: RhythmDivider)
        requires
            input.wf(),
            1 <= factor <= MAX_FACTOR,
            forall|i: int| 0 <= i < 4 ==> #[trigger] notes_per_beat@[i] >= 1,
        ensures
            r.wf(),
            r.input() == input,
            r@ == (RhythmState {
                factor: factor as int,
                counter: 0,
                notes_per_beat: notes_per_beat@,
                beat_index: 0,
                beat_note: 0,
            }),
    {
        RhythmDivider {
            factor,
            counter: 0,
            notes_per_beat,
            current_beat_index: 0,
            current_beat_note: 0,
            input,
        }
    }

    /// The raw-tick counter.
    pub fn counter(&self) -> (r: u32)
        ensures
            r == self@.counter,
    {
        self.counter
    }

    /// The current slot of the beat grouping.
    pub fn beat_index(&self) -> (r: u32)
        ensures
            r == self@.beat_index,
    {
        self.current_beat_index
    }

    /// The notes fired so far in the current slot.
    pub fn beat_note(&self) -> (r: u32)
        ensures
            r == self@.beat_note,
    {
        self.current_beat_note
    }

    /// Advances the schedule by one raw tick and tells whether the tick is a
    /// note boundary.
    pub fn advance(&mut self) -> (fire: bool)
        requires
            old(self).wf(),
        ensures
            final(self).wf(),
            final(self).input() == old(self).input(),
            final(self)@ == old(self)@.next(),
            fire == old(self)@.fires(),
    {
        let ghost s0 = self@;
        if self.current_beat_note == self.notes_per_beat[self.current_beat_index as usize]
            && self.counter == self.factor {
            if self.current_beat_index == 3 {
                self.current_beat_index = 0;
            } else {
                self.current_beat_index = self.current_beat_index + 1;
            }
            self.current_beat_note = 0;
        }
        let ghost s1 = self@;
        assert(s1 == s0.slot_checked());
        let notes = self.notes_per_beat[self.current_beat_index as usize];
        proof {
            assert(s1.notes_per_beat[s1.beat_index] >= 1);
            lemma_period_bounds(s1.factor, notes as int);
            lemma_period_bounds(s0.factor, s0.notes_per_beat[s0.beat_index] as int);
        }
        let period = ((self.factor as u64 + notes as u64 - 1) / notes as u64) as u32;
        assert(period as int == s1.period());
        let fire = self.counter % period == 0;
        if fire {
            self.counter = 0;
            if self.current_beat_note < u32::MAX {
                self.current_beat_note = self.current_beat_note + 1;
            }
        } else {
            proof {
                let b = counter_bound(s1.factor, s1.period());
                assert(s1.counter != b);
            }
        }
        self.counter = self.counter + 1;
        fire
    }

    /// One tick: on a note boundary the wrapped producer decides, elsewhere
    /// the divider is silent without asking it.
    pub fn tick(&mut self) -> (r: Trigger)
        requires
            old(self).wf(),
        ensures
            divider_ticked(*old(self), *final(self), r),
    {
        if self.advance() {
            self.input.tick()
        } else {
            Trigger::Off
        }
    }
}


/// The state of a rhythm divider after `k` raw ticks from `s`.
pub open spec fn rhythm_after(s: RhythmState, k: nat) -> RhythmState
    decreases k,
{
    if k == 0 {
        s
    } else {
        rhythm_after(s, (k - 1) as nat).next()
    }
}

/// Every slot of the beat grouping holds one note.
pub open spec fn one_note_per_slot(s: RhythmState) -> bool {
    forall|i: int| 0 <= i < 4 ==> #[trigger] s.notes_per_beat[i] == 1
}

proof fn lemma_one_note_run(s: RhythmState, j: nat)
    requires
        s.wf(),
        one_note_per_slot(s),
        s.counter == 1,
        s.beat_note == 1,
        j < s.factor,
    ensures
        rhythm_after(s, j) == (RhythmState { counter: 1 + j as int, ..s }),
        rhythm_after(s, j).fires() <==> j == s.factor - 1,
    decreases j,
{
    let t = rhythm_after(s, j);
    if j > 0 {
        lemma_one_note_run(s, (j - 1) as nat);
        let u = rhythm_after(s, (j - 1) as nat);
        assert(u.notes_per_beat[u.beat_index] == 1);
        assert(u.period() == s.factor);
        vstd::arithmetic::div_mod::lemma_small_mod(j as nat, s.factor as nat);
        assert(!u.fires());
    }
    assert(t.notes_per_beat[t.beat_index] == 1);
    assert(t.period() == s.factor);
    if j + 1 < s.factor {
        vstd::arithmetic::div_mod::lemma_small_mod((j + 1) as nat, s.factor as nat);
    } else {
        vstd::arithmetic::div_mod::lemma_mod_self_0(s.factor);
    }
}

/// With one note in every slot, a divider that has just fired on a note
/// boundary is silent for the next `factor - 1` raw ticks, fires on the
/// `factor`-th, and has then moved on to the next slot, the fourth wrapping
/// round to the first.
pub proof fn law_one_note_per_slot(s: RhythmState, j: nat)
    requires
        s.wf(),
        one_note_per_slot(s),
        s.counter == 1,
        s.beat_note == 1,
        j < s.factor,
    ensures
        rhythm_after(s, j).fires() <==> j == s.factor - 1,
        rhythm_after(s, s.factor as nat) == (RhythmState { beat_index: (s.beat_index + 1) % 4, ..s }),
{
    lemma_one_note_run(s, j);
    lemma_one_note_run(s, (s.factor - 1) as nat);
    let t = rhythm_after(s, (s.factor - 1) as nat);
    let c = t.slot_checked();
    assert(t.notes_per_beat[t.beat_index] == 1);
    assert(c.beat_index == (s.beat_index + 1) % 4);
    assert(c.notes_per_beat[c.beat_index] == 1);
    assert(c.period() == s.factor);
    vstd::arithmetic::div_mod::lemma_mod_self_0(s.factor);
    assert(rhythm_after(s, s.factor as nat) == t.next());
}

/// A fresh divider with one note in its first slot fires on its first raw
/// tick and is then in the state from which the law above starts.
pub proof fn law_fresh_divider_fires_first(s: RhythmState)
    requires
        s.wf(),
        one_note_per_slot(s),
        s.counter == 0,
        s.beat_note == 0,
    ensures
        s.fires(),
        s.next() == (RhythmState { counter: 1, beat_note: 1, ..s }),
{
    assert(s.notes_per_beat[s.beat_index] == 1);
    assert(s.period() == s.factor);
    vstd::arithmetic::div_mod::lemma_small_mod(0, s.factor as nat);
}


proof fn lemma_rhythm_after_add(s: RhythmState, a: nat, b: nat)
    ensures
        rhythm_after(s, a + b) == rhythm_after(rhythm_after(s, a), b),
    decreases b,
{
    if b > 0 {
        lemma_rhythm_after_add(s, a, (b - 1) as nat);
        assert((a + b - 1) as nat == a + (b - 1) as nat);
    }
}

proof fn lemma_settled_wf(s: RhythmState, t: RhythmState)
    requires
        s.wf(),
        one_note_per_slot(s),
        t.factor == s.factor,
        t.notes_per_beat == s.notes_per_beat,
        0 <= t.beat_index < 4,
        t.counter == 1,
        t.beat_note == 1,
    ensures
        t.wf(),
{
    let f = t.factor;
    assert(t.notes_per_beat[t.beat_index] == 1);
    assert(note_period(f, 1) == f);
    assert(t.period() == f);
    assert((f + f - 1) / f == 1) by (nonlinear_arith)
        requires f >= 1;
    assert(counter_bound(f, f) == f * 1);
    assert(counter_bound(f, f) == f);
    assert(forall|i: int| 0 <= i < 4 ==> #[trigger] t.notes_per_beat[i] >= 1);
}

/// With one note in every slot, a fresh divider fires on raw tick `k`
/// (counting from one) exactly when `k - 1` is a multiple of `factor`, and
/// during the `m`-th beat after its first note it is in slot `m % 4`, having
/// fired that slot's one note.
pub proof fn law_one_note_per_slot_from_start(s: RhythmState, m: nat, j: nat)
    requires
        s.wf(),
        one_note_per_slot(s),
        s.counter == 0,
        s.beat_note == 0,
        s.beat_index == 0,
        j < s.factor,
    ensures
        s.fires(),
        rhythm_after(s, (1 + m * s.factor + j) as nat) == (RhythmState {
            counter: 1 + j as int,
            beat_note: 1,
            beat_index: (m % 4) as int,
            ..s
        }),
        rhythm_after(s, (1 + m * s.factor + j) as nat).fires() <==> j == s.factor - 1,
    decreases m,
{
    law_fresh_divider_fires_first(s);
    let f = s.factor as nat;
    let start = RhythmState { counter: 1, beat_note: 1, beat_index: (m % 4) as int, ..s };
    if m == 0 {
        assert(rhythm_after(s, 1) == s.next()) by {
            assert(rhythm_after(s, 0) == s);
        }
        assert(start == rhythm_after(s, 1));
        assert(1 + m * f == 1) by (nonlinear_arith)
            requires m == 0;
        assert(rhythm_after(s, 1 + m * f) == start);
    } else {
        law_one_note_per_slot_from_start(s, (m - 1) as nat, 0);
        let prev = rhythm_after(s, 1 + (m - 1) as nat * f);
        assert(prev == RhythmState { counter: 1, beat_note: 1, beat_index: ((m - 1) % 4) as int, ..s });
        lemma_settled_wf(s, prev);
        law_one_note_per_slot(prev, 0);
        lemma_rhythm_after_add(s, 1 + (m - 1) as nat * f, f);
        assert(1 + (m - 1) as nat * f + f == 1 + m * f) by (nonlinear_arith)
            requires m >= 1;
        assert((((m - 1) % 4) as int + 1) % 4 == (m % 4) as int);
        assert(rhythm_after(s, 1 + m * f) == start);
    }
    lemma_settled_wf(s, start);
    assert(rhythm_after(s, 1 + m * f) == start);
    law_one_note_per_slot(start, j);
    lemma_one_note_run(start, j);
    lemma_rhythm_after_add(s, 1 + m * f, j);
    assert(m * f == m * s.factor);
    let k = (1 + m * s.factor + j) as nat;
    assert(k == (1 + m * f) + j);
    assert(rhythm_after(s, k) == rhythm_after(start, j));
    assert(rhythm_after(start, j) == (RhythmState { counter: 1 + j as int, ..start }));
}

} // verus!
