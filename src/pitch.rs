//! Pitches, the pitch producers, and the scale quantizer.
use crate::random::{draw_between, rng_from_entropy};
use vstd::prelude::*;

verus! {

/// Highest MIDI note number.
pub const MIDI_NOTE_MAX: i32 = 127;

/// A pitch class of the twelve-tone equal-tempered chromatic scale.
#[derive(Clone, Copy, Debug, PartialEq, Eq, Structural)]
pub enum Letter {
    C,
    Csh,
    D,
    Dsh,
    E,
    F,
    Fsh,
    G,
    Gsh,
    A,
    Ash,
    B,
}

impl Letter {
    /// Semitones above C within the octave.
    pub open spec fn class(self) -> int {
        match self {
            Letter::C => 0,
            Letter::Csh => 1,
            Letter::D => 2,
            Letter::Dsh => 3,
            Letter::E => 4,
            Letter::F => 5,
            Letter::Fsh => 6,
            Letter::G => 7,
            Letter::Gsh => 8,
            Letter::A => 9,
            Letter::Ash => 10,
            Letter::B => 11,
        }
    }

    pub fn index(&self) -> (r: u8)
        ensures
            r as int == self.class(),
    {
        match self {
            Letter::C => 0,
            Letter::Csh => 1,
            Letter::D => 2,
            Letter::Dsh => 3,
            Letter::E => 4,
            Letter::F => 5,
            Letter::Fsh => 6,
            Letter::G => 7,
            Letter::Gsh => 8,
            Letter::A => 9,
            Letter::Ash => 10,
            Letter::B => 11,
        }
    }

    pub fn from_index(i: u8) -> (r: Letter)
        requires
            i < 12,
        ensures
            r.class() == i as int,
    {
        if i == 0 {
            Letter::C
        } else if i == 1 {
            Letter::Csh
        } else if i == 2 {
            Letter::D
        } else if i == 3 {
            Letter::Dsh
        } else if i == 4 {
            Letter::E
        } else if i == 5 {
            Letter::F
        } else if i == 6 {
            Letter::Fsh
        } else if i == 7 {
            Letter::G
        } else if i == 8 {
            Letter::Gsh
        } else if i == 9 {
            Letter::A
        } else if i == 10 {
            Letter::Ash
        } else {
            Letter::B
        }
    }
}

/// Two letters with the same class are the same letter.
pub proof fn lemma_class_injective(a: Letter, b: Letter)
    ensures
        a.class() == b.class() ==> a == b,
{
}

/// A pitch as a letter and an octave; C4 is middle C.
#[derive(Clone, Copy, Debug, PartialEq, Eq, Structural)]
pub struct LetterOctave(pub Letter, pub i32);

/// The MIDI note number of a pitch: C-1 is 0, C4 is 60.
pub open spec fn step_of(p: LetterOctave) -> int {
    (p.1 + 1) * 12 + p.0.class()
}

/// A pitch that a MIDI note number can carry.
pub open spec fn is_midi_pitch(p: LetterOctave) -> bool {
    0 <= step_of(p) <= MIDI_NOTE_MAX
}

/// The pitch whose MIDI note number is `step`.
pub open spec fn pitch_of_step(step: int) -> LetterOctave {
    LetterOctave(letter_of_class(step % 12), (step / 12 - 1) as i32)
}

pub open spec fn letter_of_class(k: int) -> Letter {
    if k == 0 {
        Letter::C
    } else if k == 1 {
        Letter::Csh
    } else if k == 2 {
        Letter::D
    } else if k == 3 {
        Letter::Dsh
    } else if k == 4 {
        Letter::E
    } else if k == 5 {
        Letter::F
    } else if k == 6 {
        Letter::Fsh
    } else if k == 7 {
        Letter::G
    } else if k == 8 {
        Letter::Gsh
    } else if k == 9 {
        Letter::A
    } else if k == 10 {
        Letter::Ash
    } else {
        Letter::B
    }
}

impl LetterOctave {
    /// The MIDI note number of this pitch.
    pub fn step(&self) -> (r: i64)
        ensures
            r == step_of(*self),
    {
        (self.1 as i64 + 1) * 12 + self.0.index() as i64
    }

    /// The pitch of a non-negative MIDI note number.
    pub fn from_step(step: i32) -> (r: LetterOctave)
        requires
            0 <= step,
        ensures
            step_of(r) == step,
            r == pitch_of_step(step as int),
    {
        let letter = Letter::from_index((step % 12) as u8);
        let octave: i32 = step / 12 - 1;
        assert(letter == letter_of_class(step as int % 12));
        LetterOctave(letter, octave)
    }
}

// ---------------------------------------------------------------------------
// Quantization to a scale

/// The letter of lowest class among the entries of `scale` whose class is at
/// least `k`, if there is one.
pub open spec fn lowest_at_least(scale: Seq<Letter>, k: int) -> Option<Letter>
    decreases scale.len(),
{
    if scale.len() == 0 {
        None
    } else {
        let rest = lowest_at_least(scale.drop_last(), k);
        let x = scale.last();
        if x.class() >= k && (rest is None || x.class() < rest->Some_0.class()) {
            Some(x)
        } else {
            rest
        }
    }
}

/// `p` snapped up to `scale`: the lowest scale letter at or above `p`'s letter
/// in the same octave, or else the lowest scale letter one octave up.
pub open spec fn quantized(scale: Seq<Letter>, p: LetterOctave) -> LetterOctave {
    match lowest_at_least(scale, p.0.class()) {
        Some(l) => LetterOctave(l, p.1),
        None => LetterOctave(lowest_at_least(scale, 0)->Some_0, (p.1 + 1) as i32),
    }
}

proof fn lemma_lowest_at_least(scale: Seq<Letter>, k: int)
    ensures
        lowest_at_least(scale, k) matches Some(l) ==> {
            &&& scale.contains(l)
            &&& l.class() >= k
            &&& forall|i: int| 0 <= i < scale.len() && scale[i].class() >= k ==> l.class() <= scale[i].class()
        },
        lowest_at_least(scale, k) is None ==> forall|i: int|
            0 <= i < scale.len() ==> scale[i].class() < k,
    decreases scale.len(),
{
    if scale.len() > 0 {
        lemma_lowest_at_least(scale.drop_last(), k);
        let rest = lowest_at_least(scale.drop_last(), k);
        if let Some(l) = rest {
            let j = choose|j: int| 0 <= j < scale.drop_last().len() && scale.drop_last()[j] == l;
            assert(scale[j] == l);
        }
        assert forall|i: int| 0 <= i < scale.len() - 1 implies scale[i] == scale.drop_last()[i] by {}
        assert(scale.last() == scale[scale.len() - 1]);
    }
}

/// Quantizing keeps the letter in the scale; a letter of the scale comes back
/// unchanged; otherwise the result is the nearest scale letter above in the
/// same octave, or the lowest scale letter exactly one octave higher.
pub proof fn law_quantize(scale: Seq<Letter>, p: LetterOctave)
    requires
        scale.len() > 0,
        p.1 < i32::MAX,
    ensures
        scale.contains(quantized(scale, p).0),
        scale.contains(p.0) ==> quantized(scale, p) == p,
        quantized(scale, p).1 == p.1 || quantized(scale, p).1 == p.1 + 1,
        quantized(scale, p).1 == p.1 ==> quantized(scale, p).0.class() >= p.0.class(),
        quantized(scale, p).1 == p.1 + 1 ==> forall|i: int|
            0 <= i < scale.len() ==> scale[i].class() < p.0.class(),
{
    lemma_lowest_at_least(scale, p.0.class());
    lemma_lowest_at_least(scale, 0);
    assert(scale[0].class() >= 0);
    if scale.contains(p.0) {
        let j = choose|j: int| 0 <= j < scale.len() && scale[j] == p.0;
        lemma_class_injective(lowest_at_least(scale, p.0.class())->Some_0, p.0);
    }
}

/// Snaps `p` to the letters of `scale`.
pub fn quantize(scale: &Vec<Letter>, p: LetterOctave) -> (r: LetterOctave)
    requires
        scale.len() > 0,
        p.1 < i32::MAX,
    ensures
        r == quantized(scale@, p),
{
    let k = p.0.index();
    let mut above: Option<Letter> = None;
    let mut lowest: Option<Letter> = None;
    let mut i: usize = 0;
    while i < scale.len()
        invariant
            i <= scale.len(),
            k as int == p.0.class(),
            above == lowest_at_least(scale@.take(i as int), k as int),
            lowest == lowest_at_least(scale@.take(i as int), 0),
        decreases scale.len() - i,
    {
        let x = scale[i];
        let c = x.index();
        proof {
            assert(scale@.take(i + 1).drop_last() =~= scale@.take(i as int));
            assert(scale@.take(i + 1).last() == x);
        }
        match above {
            None => {
                if c >= k {
                    above = Some(x);
                }
            },
            Some(a) => {
                if c >= k && c < a.index() {
                    above = Some(x);
                }
            },
        }
        match lowest {
            None => {
                lowest = Some(x);
            },
            Some(l) => {
                if c < l.index() {
                    lowest = Some(x);
                }
            },
        }
        i = i + 1;
    }
    assert(scale@.take(scale.len() as int) =~= scale@);
    match above {
        Some(a) => LetterOctave(a, p.1),
        None => {
            proof {
                lemma_lowest_at_least(scale@, 0);
                assert(scale@[0].class() >= 0);
            }
            LetterOctave(lowest.unwrap(), p.1 + 1)
        },
    }
}


// ---------------------------------------------------------------------------
// Producers

/// The pitch producer shapes that a configuration can name.
#[derive(Clone, Copy, Debug, PartialEq, Eq, Structural)]
pub enum PitchProducerType {
    Random,
    RampUp,
    Square,
    Sine,
}

/// The display name of a producer shape.
pub open spec fn shape_name(k: PitchProducerType) -> Seq<char> {
    match k {
        PitchProducerType::Random => "Random"@,
        PitchProducerType::RampUp => "Ramp"@,
        PitchProducerType::Square => "Square"@,
        PitchProducerType::Sine => "Sine"@,
    }
}

impl PitchProducerType {
    /// The display name of the shape.
    pub fn name(&self) -> (r: &'static str)
        ensures
            r@ == shape_name(*self),
    {
        match self {
            PitchProducerType::Random => "Random",
            PitchProducerType::RampUp => "Ramp",
            PitchProducerType::Square => "Square",
            PitchProducerType::Sine => "Sine",
        }
    }

    /// The shape whose display name is `s`, if any.
    pub fn from_name(s: &str) -> (r: Option<PitchProducerType>)
        ensures
            forall|k: PitchProducerType| r == Some(k) <==> s@ == shape_name(k),
    {
        proof {
            reveal_strlit("Random");
            reveal_strlit("Ramp");
            reveal_strlit("Square");
            reveal_strlit("Sine");
            assert("Random"@.len() == 6 && "Square"@.len() == 6 && "Ramp"@.len() == 4 && "Sine"@.len() == 4);
            assert("Random"@[0] == 'R' && "Ramp"@[0] == 'R' && "Square"@[0] == 'S' && "Sine"@[0] == 'S');
            assert(forall|a: PitchProducerType, b: PitchProducerType| shape_name(a) == shape_name(b) ==> a == b);
        }
        let given = s.to_owned();
        let kinds = [
            PitchProducerType::Random,
            PitchProducerType::RampUp,
            PitchProducerType::Square,
            PitchProducerType::Sine,
        ];
        let mut i: usize = 0;
        while i < 4
            invariant
                0 <= i <= 4,
                given@ == s@,
                forall|a: PitchProducerType, b: PitchProducerType| shape_name(a) == shape_name(b) ==> a == b,
                kinds@ == seq![
                    PitchProducerType::Random,
                    PitchProducerType::RampUp,
                    PitchProducerType::Square,
                    PitchProducerType::Sine,
                ],
                forall|j: int| 0 <= j < i ==> s@ != shape_name(#[trigger] kinds@[j]),
            decreases 4 - i,
        {
            let name = kinds[i].name().to_owned();
            if given.eq(&name) {
                proof {
                    assert(forall|k: PitchProducerType| s@ == shape_name(k) ==> k == kinds@[i as int]);
                }
                return Some(kinds[i]);
            }
            i = i + 1;
        }
        proof {
            assert forall|k: PitchProducerType| s@ != shape_name(k) by {
                match k {
                    PitchProducerType::Random => assert(kinds@[0] == k),
                    PitchProducerType::RampUp => assert(kinds@[1] == k),
                    PitchProducerType::Square => assert(kinds@[2] == k),
                    PitchProducerType::Sine => assert(kinds@[3] == k),
                }
            }
        }
        None
    }
}

/// The state of a periodic producer: its period in ticks, its range as MIDI
/// note numbers, and its position in the period.
pub struct PeriodicState {
    pub cycle_length: int,
    pub min: int,
    pub max: int,
    pub counter: int,
}

impl PeriodicState {
    pub open spec fn wf(self) -> bool {
        &&& 1 <= self.cycle_length <= u32::MAX
        &&& 0 <= self.counter < self.cycle_length
        &&& 0 <= self.min <= self.max <= MIDI_NOTE_MAX
    }

    pub open spec fn with_counter(self, counter: int) -> PeriodicState {
        PeriodicState { counter, ..self }
    }
}

/// `a / b` rounded to the nearest integer, halves upwards (`a >= 0`, `b > 0`).
pub open spec fn round_div(a: int, b: int) -> int {
    (2 * a + b) / (2 * b)
}

/// Draws each pitch uniformly among the MIDI note numbers from `min` to `max`.
pub struct RandomPitchProducer {
    rng: rand::rngs::SmallRng,
    min: i32,
    max: i32,
}

impl RandomPitchProducer {
    pub closed spec fn range(&self) -> (int, int) {
        (self.min as int, self.max as int)
    }

    pub open spec fn wf(&self) -> bool {
        0 <= self.range().0 <= self.range().1 <= MIDI_NOTE_MAX
    }

    /// A producer seeded from the operating system's entropy.
    pub fn new(min: LetterOctave, max: LetterOctave) -> (r: RandomPitchProducer)
        requires
            is_midi_pitch(min),
            is_midi_pitch(max),
            step_of(min) <= step_of(max),
        ensures
            r.wf(),
            r.range() == (step_of(min), step_of(max)),
    {
        RandomPitchProducer { rng: rng_from_entropy(), min: min.step() as i32, max: max.step() as i32 }
    }

    pub fn tick(&mut self) -> (r: LetterOctave)
        requires
            old(self).wf(),
        ensures
            final(self).range() == old(self).range(),
            old(self).range().0 <= step_of(r) <= old(self).range().1,
            r == pitch_of_step(step_of(r)),
    {
        let step = if self.min != self.max {
            draw_between(&mut self.rng, self.min, self.max)
        } else {
            self.min
        };
        LetterOctave::from_step(step)
    }
}

/// Rises linearly from `min` to `max` over `cycle_length` ticks, then starts
/// again at `min`.
pub struct RampPitchProducer {
    cycle_length: u32,
    min: i32,
    max: i32,
    counter: u32,
}

/// The MIDI note number that a ramp in state `s` produces.
pub open spec fn ramp_step(s: PeriodicState) -> int {
    if s.cycle_length > 1 {
        s.min + round_div((s.max - s.min) * s.counter, s.cycle_length - 1)
    } else {
        s.min
    }
}

/// The position that follows `counter` in a period of `cycle_length` ticks.
pub open spec fn next_counter(counter: int, cycle_length: int) -> int {
    if counter == cycle_length - 1 {
        0
    } else {
        counter + 1
    }
}

impl View for RampPitchProducer {
    type V = PeriodicState;

    closed spec fn view(&self) -> PeriodicState {
        PeriodicState {
            cycle_length: self.cycle_length as int,
            min: self.min as int,
            max: self.max as int,
            counter: self.counter as int,
        }
    }
}

impl RampPitchProducer {
    pub fn new(cycle_length: u32, min: LetterOctave, max: LetterOctave) -> (r: RampPitchProducer)
        requires
            cycle_length > 0,
            is_midi_pitch(min),
            is_midi_pitch(max),
            step_of(min) <= step_of(max),
        ensures
            r@ == (PeriodicState {
                cycle_length: cycle_length as int,
                min: step_of(min),
                max: step_of(max),
                counter: 0,
            }),
            r@.wf(),
    {
        RampPitchProducer { cycle_length, min: min.step() as i32, max: max.step() as i32, counter: 0 }
    }

    pub fn tick(&mut self) -> (r: LetterOctave)
        requires
            old(self)@.wf(),
        ensures
            r == pitch_of_step(ramp_step(old(self)@)),
            final(self)@ == old(self)@.with_counter(next_counter(old(self)@.counter, old(self)@.cycle_length)),
    {
        let span = (self.max - self.min) as u64;
        let offset: u64 = if self.cycle_length > 1 {
            let d = (self.cycle_length - 1) as u64;
            let c = self.counter as u64;
            proof {
                assert(span * c <= 127 * c) by (nonlinear_arith)
                    requires span <= 127;
                assert(span * c * 2 + d <= 255 * 0xffff_ffff) by (nonlinear_arith)
                    requires span * c <= 127 * c, c <= 0xffff_ffff, d <= 0xffff_ffff;
                assert((2 * (span * c) + d) / (2 * d) <= span) by (nonlinear_arith)
                    requires c <= d, d > 0, span >= 0;
            }
            (2 * (span * c) + d) / (2 * d)
        } else {
            0
        };
        let pitch = LetterOctave::from_step(self.min + offset as i32);
        if self.counter == self.cycle_length - 1 {
            self.counter = 0;
        } else {
            self.counter = self.counter + 1;
        }
        pitch
    }
}

/// Holds `min` for the first half of each period and `max` for the rest.
pub struct SquarePitchProducer {
    cycle_length: u32,
    min: i32,
    max: i32,
    counter: u32,
}

/// The MIDI note number of the `counter`-th tick of a square wave
/// (counting from one).
pub open spec fn square_step(s: PeriodicState, counter: int) -> int {
    if counter <= s.cycle_length / 2 {
        s.min
    } else {
        s.max
    }
}

impl View for SquarePitchProducer {
    type V = PeriodicState;

    closed spec fn view(&self) -> PeriodicState {
        PeriodicState {
            cycle_length: self.cycle_length as int,
            min: self.min as int,
            max: self.max as int,
            counter: self.counter as int,
        }
    }
}

impl SquarePitchProducer {
    pub fn new(cycle_length: u32, min: LetterOctave, max: LetterOctave) -> (r: SquarePitchProducer)
        requires
            cycle_length > 0,
            is_midi_pitch(min),
            is_midi_pitch(max),
            step_of(min) <= step_of(max),
        ensures
            r@ == (PeriodicState {
                cycle_length: cycle_length as int,
                min: step_of(min),
                max: step_of(max),
                counter: 0,
            }),
            r@.wf(),
    {
        SquarePitchProducer { cycle_length, min: min.step() as i32, max: max.step() as i32, counter: 0 }
    }

    pub fn tick(&mut self) -> (r: LetterOctave)
        requires
            old(self)@.wf(),
        ensures
            r == pitch_of_step(square_step(old(self)@, old(self)@.counter + 1)),
            final(self)@ == old(self)@.with_counter(next_counter(old(self)@.counter, old(self)@.cycle_length)),
    {
        self.counter = self.counter + 1;
        let pitch = if self.counter <= self.cycle_length / 2 {
            LetterOctave::from_step(self.min)
        } else {
            if self.counter == self.cycle_length {
                self.counter = 0;
            }
            LetterOctave::from_step(self.max)
        };
        pitch
    }
}


/// Follows one period of a sine wave per `cycle_length` ticks, mapped from
/// `[-1, 1]` onto `[min, max]` by `(sin + 1) / 2`.
///
/// The sine is evaluated exactly in integers with Bhaskara I's rational form
/// `sin(pi x) ~ 16 x (1 - x) / (5 - 4 x (1 - x))` for `x` in `[0, 1]` (its
/// error stays below 0.002), and the result is rounded to the nearest note.
pub struct SinePitchProducer {
    cycle_length: u32,
    min: i32,
    max: i32,
    counter: u32,
}

/// Twice the position within the current half period, as a numerator over
/// `n`: the `x` of Bhaskara's form is `half_phase(counter, n) / n`.
pub open spec fn half_phase(counter: int, n: int) -> int {
    if 2 * counter <= n {
        2 * counter
    } else {
        2 * counter - n
    }
}

/// Bhaskara's denominator over `n * n`, at phase `counter / n`.
pub open spec fn sine_denominator(counter: int, n: int) -> int {
    let a = half_phase(counter, n);
    5 * (n * n) - 4 * (a * (n - a))
}

/// `sine_denominator` times `1 + sin` at phase `counter / n`.
pub open spec fn sine_numerator(counter: int, n: int) -> int {
    let a = half_phase(counter, n);
    if 2 * counter <= n {
        sine_denominator(counter, n) + 16 * (a * (n - a))
    } else {
        sine_denominator(counter, n) - 16 * (a * (n - a))
    }
}

/// `span * (1 + sin) / 2` at phase `counter / n`, rounded to the nearest
/// integer.
pub open spec fn sine_offset(span: int, counter: int, n: int) -> int {
    round_div(span * sine_numerator(counter, n), 2 * sine_denominator(counter, n))
}

/// The MIDI note number that a sine producer in state `s` produces.
pub open spec fn sine_step(s: PeriodicState) -> int {
    s.min + sine_offset(s.max - s.min, s.counter, s.cycle_length)
}

proof fn lemma_sine_bounds(span: int, counter: int, n: int)
    requires
        0 <= counter < n,
        0 <= span,
    ensures
        4 * (n * n) <= sine_denominator(counter, n) <= 5 * (n * n),
        0 <= sine_numerator(counter, n) <= 2 * sine_denominator(counter, n),
        0 <= sine_offset(span, counter, n) <= span,
{
    let a = half_phase(counter, n);
    let q = a * (n - a);
    let d = sine_denominator(counter, n);
    let num = sine_numerator(counter, n);
    assert(0 <= a <= n);
    assert(0 <= q) by (nonlinear_arith)
        requires q == a * (n - a), 0 <= a <= n;
    assert(4 * q <= n * n) by (nonlinear_arith)
        requires q == a * (n - a);
    assert(d == 5 * (n * n) - 4 * q);
    assert(4 * (n * n) <= d);
    assert(16 * q <= d);
    assert(0 <= num <= 2 * d);
    assert(0 <= span * num <= span * (2 * d)) by (nonlinear_arith)
        requires 0 <= num <= 2 * d, 0 <= span;
    assert(n * n > 0) by (nonlinear_arith)
        requires n > 0;
    assert(d > 0);
    assert(0 <= (2 * (span * num) + 2 * d) / (2 * (2 * d)) <= span) by (nonlinear_arith)
        requires 0 <= span * num <= span * (2 * d), d > 0, span >= 0;
}

impl View for SinePitchProducer {
    type V = PeriodicState;

    closed spec fn view(&self) -> PeriodicState {
        PeriodicState {
            cycle_length: self.cycle_length as int,
            min: self.min as int,
            max: self.max as int,
            counter: self.counter as int,
        }
    }
}

impl SinePitchProducer {
    pub fn new(cycle_length: u32, min: LetterOctave, max: LetterOctave) -> (r: SinePitchProducer)
        requires
            cycle_length > 0,
            is_midi_pitch(min),
            is_midi_pitch(max),
            step_of(min) <= step_of(max),
        ensures
            r@ == (PeriodicState {
                cycle_length: cycle_length as int,
                min: step_of(min),
                max: step_of(max),
                counter: 0,
            }),
            r@.wf(),
    {
        SinePitchProducer { cycle_length, min: min.step() as i32, max: max.step() as i32, counter: 0 }
    }

    pub fn tick(&mut self) -> (r: LetterOctave)
        requires
            old(self)@.wf(),
        ensures
            r == pitch_of_step(sine_step(old(self)@)),
            final(self)@ == old(self)@.with_counter(next_counter(old(self)@.counter, old(self)@.cycle_length)),
    {
        let n = self.cycle_length as u128;
        let c = self.counter as u128;
        let span = (self.max - self.min) as u128;
        proof {
            lemma_sine_bounds(span as int, c as int, n as int);
            assert(n * n <= 0xffff_ffff * 0xffff_ffff) by (nonlinear_arith)
                requires n <= 0xffff_ffff;
            assert(n * n > 0) by (nonlinear_arith)
                requires n >= 1;
        }
        let a: u128 = if 2 * c <= n { 2 * c } else { 2 * c - n };
        proof {
            assert(a * (n - a) <= n * n) by (nonlinear_arith)
                requires a <= n;
        }
        let q: u128 = a * (n - a);
        let d: u128 = 5 * (n * n) - 4 * q;
        assert(d == sine_denominator(c as int, n as int));
        let num: u128 = if 2 * c <= n { d + 16 * q } else { d - 16 * q };
        proof {
            assert(num == sine_numerator(c as int, n as int));
            assert(span * num <= 127 * num) by (nonlinear_arith)
                requires span <= 127;
        }
        let offset: u128 = (2 * (span * num) + 2 * d) / (2 * (2 * d));
        let pitch = LetterOctave::from_step(self.min + offset as i32);
        proof {
            let next = self.counter + 1;
            if next < self.cycle_length {
                vstd::arithmetic::div_mod::lemma_small_mod(next as nat, self.cycle_length as nat);
            } else {
                vstd::arithmetic::div_mod::lemma_mod_self_0(self.cycle_length as int);
            }
        }
        self.counter = (self.counter + 1) % self.cycle_length;
        pitch
    }
}


// ---------------------------------------------------------------------------
// Periodicity

/// The state of a periodic producer after `k` ticks from `s`.
pub open spec fn advance(s: PeriodicState, k: nat) -> PeriodicState
    decreases k,
{
    if k == 0 {
        s
    } else {
        let t = advance(s, (k - 1) as nat);
        t.with_counter(next_counter(t.counter, t.cycle_length))
    }
}

proof fn lemma_advance(s: PeriodicState, k: nat)
    requires
        s.wf(),
    ensures
        advance(s, k) == s.with_counter((s.counter + k) % s.cycle_length),
    decreases k,
{
    if k == 0 {
        vstd::arithmetic::div_mod::lemma_small_mod(s.counter as nat, s.cycle_length as nat);
    } else {
        lemma_advance(s, (k - 1) as nat);
        let n = s.cycle_length;
        let c = (s.counter + k - 1) % n;
        vstd::arithmetic::div_mod::lemma_mod_bound(s.counter + k - 1, n);
        vstd::arithmetic::div_mod::lemma_add_mod_noop(s.counter + k - 1, 1, n);
        if n > 1 {
            vstd::arithmetic::div_mod::lemma_small_mod(1, n as nat);
        } else {
            vstd::arithmetic::div_mod::lemma_mod_self_0(n);
        }
        if c + 1 < n {
            vstd::arithmetic::div_mod::lemma_small_mod((c + 1) as nat, n as nat);
        } else {
            vstd::arithmetic::div_mod::lemma_mod_self_0(n);
        }
    }
}

/// Ramp, square and sine producers repeat exactly every `cycle_length` ticks:
/// the state comes back after that many ticks, and not sooner.
pub proof fn law_period(s: PeriodicState, k: nat)
    requires
        s.wf(),
        0 < k < s.cycle_length,
    ensures
        advance(s, s.cycle_length as nat) == s,
        advance(s, k) != s,
{
    lemma_advance(s, s.cycle_length as nat);
    lemma_advance(s, k);
    vstd::arithmetic::div_mod::lemma_add_mod_noop(s.counter, s.cycle_length, s.cycle_length);
    vstd::arithmetic::div_mod::lemma_mod_self_0(s.cycle_length);
    vstd::arithmetic::div_mod::lemma_small_mod(s.counter as nat, s.cycle_length as nat);
    if (s.counter + k) < s.cycle_length {
        vstd::arithmetic::div_mod::lemma_small_mod((s.counter + k) as nat, s.cycle_length as nat);
    } else {
        let b = s.counter + k - s.cycle_length;
        vstd::arithmetic::div_mod::lemma_mod_add_multiples_vanish(b, s.cycle_length);
        vstd::arithmetic::div_mod::lemma_small_mod(b as nat, s.cycle_length as nat);
    }
}

/// At phase zero a sine producer sits at the middle of its range, rounded up.
pub proof fn law_sine_phase_zero(s: PeriodicState)
    requires
        s.wf(),
        s.counter == 0,
    ensures
        sine_step(s) == s.min + (s.max - s.min + 1) / 2,
{
    let n = s.cycle_length;
    let span = s.max - s.min;
    let d = sine_denominator(0, n);
    assert(half_phase(0, n) == 0);
    assert(0 * (n - 0) == 0) by (nonlinear_arith);
    assert(d == 5 * (n * n));
    assert(n * n > 0) by (nonlinear_arith)
        requires n >= 1;
    assert(sine_numerator(0, n) == d);
    assert((2 * (span * d) + 2 * d) / (2 * (2 * d)) == (span + 1) / 2) by (nonlinear_arith)
        requires d > 0, span >= 0;
}

// ---------------------------------------------------------------------------
// Any producer, and the quantizer around it

/// One producer of any shape.
pub enum PitchSource {
    Random(RandomPitchProducer),
    Ramp(RampPitchProducer),
    Square(SquarePitchProducer),
    Sine(SinePitchProducer),
}

/// What one tick of `before` returning `r` and leaving `after` means.
pub open spec fn source_ticked(before: PitchSource, after: PitchSource, r: LetterOctave) -> bool {
    match before {
        PitchSource::Random(p) => after matches PitchSource::Random(q) && q.range() == p.range()
            && p.range().0 <= step_of(r) <= p.range().1 && r == pitch_of_step(step_of(r)),
        PitchSource::Ramp(p) => after matches PitchSource::Ramp(q) && q@ == p@.with_counter(
            next_counter(p@.counter, p@.cycle_length),
        ) && r == pitch_of_step(ramp_step(p@)),
        PitchSource::Square(p) => after matches PitchSource::Square(q) && q@ == p@.with_counter(
            next_counter(p@.counter, p@.cycle_length),
        ) && r == pitch_of_step(square_step(p@, p@.counter + 1)),
        PitchSource::Sine(p) => after matches PitchSource::Sine(q) && q@ == p@.with_counter(
            next_counter(p@.counter, p@.cycle_length),
        ) && r == pitch_of_step(sine_step(p@)),
    }
}

impl PitchSource {
    pub open spec fn wf(&self) -> bool {
        match self {
            PitchSource::Random(p) => p.wf(),
            PitchSource::Ramp(p) => p@.wf(),
            PitchSource::Square(p) => p@.wf(),
            PitchSource::Sine(p) => p@.wf(),
        }
    }

    pub fn tick(&mut self) -> (r: LetterOctave)
        requires
            old(self).wf(),
        ensures
            final(self).wf(),
            source_ticked(*old(self), *final(self), r),
            0 <= step_of(r) <= MIDI_NOTE_MAX,
    {
        match self {
            PitchSource::Random(p) => p.tick(),
            PitchSource::Ramp(p) => {
                let ghost before = *p;
                let r = p.tick();
                proof { lemma_ramp_in_range(before); }
                r
            },
            PitchSource::Square(p) => p.tick(),
            PitchSource::Sine(p) => {
                let ghost before = *p;
                let r = p.tick();
                proof { lemma_sine_bounds(before@.max - before@.min, before@.counter, before@.cycle_length); }
                r
            },
        }
    }
}

proof fn lemma_ramp_in_range(p: RampPitchProducer)
    requires
        p@.wf(),
    ensures
        p@.min <= ramp_step(p@) <= p@.max,
        ramp_step(p@) == step_of(pitch_of_step(ramp_step(p@))),
{
    lemma_ramp_step_in_range(p@);
}

proof fn lemma_ramp_step_in_range(s: PeriodicState)
    requires
        s.wf(),
    ensures
        s.min <= ramp_step(s) <= s.max,
        ramp_step(s) == step_of(pitch_of_step(ramp_step(s))),
{
    if s.cycle_length > 1 {
        let d = s.cycle_length - 1;
        let span = s.max - s.min;
        assert(0 <= span * s.counter <= span * d) by (nonlinear_arith)
            requires 0 <= s.counter <= d, span >= 0;
        assert(0 <= (2 * (span * s.counter) + d) / (2 * d) <= span) by (nonlinear_arith)
            requires 0 <= span * s.counter <= span * d, d > 0;
    }
    let k = ramp_step(s);
    assert(step_of(pitch_of_step(k)) == k);
}

/// What one tick of a quantizer `before` returning `r` and leaving `after`
/// means: its producer ticked once, and `r` is that producer's pitch snapped
/// to the scale.
pub open spec fn quantizer_ticked(before: PitchQuantizer, after: PitchQuantizer, r: LetterOctave) -> bool {
    &&& after.wf()
    &&& after.scale() == before.scale()
    &&& exists|raw: LetterOctave|
        #[trigger] source_ticked(before.input(), after.input(), raw) && 0 <= step_of(raw) <= MIDI_NOTE_MAX
            && r == quantized(before.scale(), raw)
    &&& before.scale().contains(r.0)
}

/// Snaps every pitch of a producer to a scale.
pub struct PitchQuantizer {
    input: PitchSource,
    scale: Vec<Letter>,
}

impl PitchQuantizer {
    pub closed spec fn input(&self) -> PitchSource {
        self.input
    }

    pub closed spec fn scale(&self) -> Seq<Letter> {
        self.scale@
    }

    pub open spec fn wf(&self) -> bool {
        self.input().wf() && self.scale().len() > 0
    }

    pub fn new(input: PitchSource, scale: Vec<Letter>) -> (r: PitchQuantizer)
        requires
            input.wf(),
            scale.len() > 0,
        ensures
            r.wf(),
            r.input() == input,
            r.scale() == scale@,
    {
        PitchQuantizer { input, scale }
    }

    /// Ticks the producer and snaps its pitch to the scale.
    pub fn tick(&mut self) -> (r: LetterOctave)
        requires
            old(self).wf(),
        ensures
            quantizer_ticked(*old(self), *final(self), r),
    {
        let raw = self.input.tick();
        proof {
            assert(raw.1 < i32::MAX);
            law_quantize(self.scale@, raw);
        }
        quantize(&self.scale, raw)
    }
}


// ---------------------------------------------------------------------------
// Monotonicity

proof fn lemma_quantized_least(scale: Seq<Letter>, p: LetterOctave, r: LetterOctave)
    requires
        scale.len() > 0,
        p.1 < i32::MAX,
        scale.contains(r.0),
        step_of(p) <= step_of(r),
    ensures
        step_of(p) <= step_of(quantized(scale, p)) <= step_of(r),
{
    lemma_lowest_at_least(scale, p.0.class());
    lemma_lowest_at_least(scale, 0);
    assert(scale[0].class() >= 0);
    let j = choose|j: int| 0 <= j < scale.len() && scale[j] == r.0;
    assert(0 <= r.0.class() < 12 && 0 <= p.0.class() < 12);
}

/// Quantizing never reverses the order of two pitches.
pub proof fn law_quantize_monotone(scale: Seq<Letter>, p: LetterOctave, q: LetterOctave)
    requires
        scale.len() > 0,
        p.1 < i32::MAX,
        q.1 < i32::MAX,
        step_of(p) <= step_of(q),
    ensures
        step_of(quantized(scale, p)) <= step_of(quantized(scale, q)),
{
    law_quantize(scale, q);
    lemma_quantized_least(scale, q, quantized(scale, q));
    lemma_quantized_least(scale, p, quantized(scale, q));
}

/// A ramp rises within one period.
pub proof fn law_ramp_rises(s: PeriodicState, c1: int, c2: int)
    requires
        s.wf(),
        0 <= c1 <= c2 < s.cycle_length,
    ensures
        ramp_step(s.with_counter(c1)) <= ramp_step(s.with_counter(c2)),
{
    if s.cycle_length > 1 {
        let d = s.cycle_length - 1;
        let span = s.max - s.min;
        assert(span * c1 <= span * c2) by (nonlinear_arith)
            requires 0 <= c1 <= c2, span >= 0;
        vstd::arithmetic::div_mod::lemma_div_is_ordered(2 * (span * c1) + d, 2 * (span * c2) + d, 2 * d);
    }
}

/// Within one period of a ramp, the pitches that a quantizer over it plays
/// never fall, and each lies in the scale.
pub proof fn law_quantized_ramp_rises(scale: Seq<Letter>, s: PeriodicState, c1: int, c2: int)
    requires
        scale.len() > 0,
        s.wf(),
        0 <= c1 <= c2 < s.cycle_length,
    ensures
        step_of(quantized(scale, pitch_of_step(ramp_step(s.with_counter(c1))))) <= step_of(
            quantized(scale, pitch_of_step(ramp_step(s.with_counter(c2)))),
        ),
        scale.contains(quantized(scale, pitch_of_step(ramp_step(s.with_counter(c2)))).0),
{
    let s1 = s.with_counter(c1);
    let s2 = s.with_counter(c2);
    law_ramp_rises(s, c1, c2);
    lemma_ramp_step_in_range(s1);
    lemma_ramp_step_in_range(s2);
    let k1 = ramp_step(s1);
    let k2 = ramp_step(s2);
    assert(step_of(pitch_of_step(k1)) == k1);
    assert(step_of(pitch_of_step(k2)) == k2);
    law_quantize_monotone(scale, pitch_of_step(k1), pitch_of_step(k2));
    law_quantize(scale, pitch_of_step(k2));
}

} // verus!
