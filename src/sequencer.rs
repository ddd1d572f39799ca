//! Engine configuration, the commands that change a running engine, the
//! engine's per-tick decisions, and the facade that sends it commands.
use crate::pitch::{
    is_midi_pitch, quantizer_ticked, step_of, Letter, LetterOctave, PeriodicState, PitchProducerType,
    PitchQuantizer, PitchSource, RampPitchProducer, RandomPitchProducer, SinePitchProducer,
    SquarePitchProducer, MIDI_NOTE_MAX,
};
use crate::trigger::{divider_ticked, RandomTriggerProducer, RhythmDivider, RhythmState, Trigger, MAX_FACTOR};
use vstd::prelude::*;

verus! {

/// Status byte of a note-on message.
pub const NOTE_ON_MSG: u8 = 0x90;
/// Status byte of a note-off message.
pub const NOTE_OFF_MSG: u8 = 0x80;
/// Status byte of a program change message.
pub const PROGRAM_CHANGE_MSG: u8 = 0xC0;
/// Velocity of every note.
pub const VELOCITY: u8 = 0x64;
/// The tempo at which the engine's tick period is laid out.
pub const BPM: u64 = 60;
/// Engine ticks per quarter note (one beat).
pub const TICKS_PER_QUARTER_NOTE: u64 = 40;
/// Highest MIDI program number.
pub const INSTRUMENT_MAX: u8 = 127;

/// The engine's tick period in milliseconds: 60 000 / BPM / ticks per beat.
pub fn tick_period_ms() -> (r: u64)
    ensures
        r == 60_000u64 / BPM / TICKS_PER_QUARTER_NOTE,
{
    60_000 / BPM / TICKS_PER_QUARTER_NOTE
}

/// A note length as a fraction of a beat.
#[derive(Clone, Copy, Debug, PartialEq, Eq, Structural)]
pub struct NoteDuration {
    pub numerator: u32,
    pub denominator: u32,
}

/// A rhythm pattern that the engine can play: non-empty, every length with a
/// non-zero denominator.
pub open spec fn valid_pattern(p: Seq<NoteDuration>) -> bool {
    p.len() > 0 && forall|i: int| 0 <= i < p.len() ==> (#[trigger] p[i]).denominator > 0
}

/// A tempo that gives at least one engine tick per beat.
pub open spec fn valid_tempo(bpm: int) -> bool {
    1 <= bpm <= TICKS_PER_QUARTER_NOTE * BPM
}

/// Engine ticks per beat at tempo `bpm`.
pub open spec fn beat_factor(bpm: int) -> int {
    (TICKS_PER_QUARTER_NOTE * BPM) as int / bpm
}

/// How long a note of length `d` lasts at tempo `bpm`, in whole milliseconds.
pub open spec fn duration_ms(d: NoteDuration, bpm: int) -> int {
    (d.numerator * 60_000) as int / (d.denominator * bpm)
}

/// The MIDI note number that sounds pitch `p`, held to the MIDI range.
pub open spec fn midi_note(p: LetterOctave) -> int {
    if step_of(p) < 0 {
        0
    } else if step_of(p) > MIDI_NOTE_MAX {
        MIDI_NOTE_MAX as int
    } else {
        step_of(p)
    }
}

/// Everything needed to build the engine's producers and play.
#[derive(Clone)]
pub struct SequencerConfiguration {
    pub min_pitch: LetterOctave,
    pub max_pitch: LetterOctave,
    pub pitch_producer_type: PitchProducerType,
    pub cycle_length: u32,
    pub rhythm_pattern: Vec<NoteDuration>,
    pub notes_per_beat: [u32; 4],
    pub instrument: u8,
    pub quantizer_scale: Vec<Letter>,
    /// Tempo in beats per minute.
    pub bpm: u32,
    /// The chance that a note boundary fires, as `fire_numerator /
    /// fire_denominator`; equal values fire on every boundary.
    pub fire_numerator: u32,
    pub fire_denominator: u32,
}

/// Why a configuration cannot be played.
#[derive(Clone, Copy, Debug, PartialEq, Eq, Structural)]
pub enum ConfigurationError {
    /// The quantizer scale has no letter.
    EmptyScale,
    /// A pitch bound lies outside the MIDI range, or the minimum lies above
    /// the maximum.
    InvalidPitchRange,
    /// The cycle length is zero.
    ZeroCycleLength,
    /// The tempo is zero or too fast for one engine tick per beat.
    InvalidTempo,
    /// A slot of the beat grouping holds no note.
    InvalidBeatGrouping,
    /// The fire chance has a zero denominator or lies above one.
    InvalidProbability,
    /// The rhythm pattern is empty.
    EmptyRhythmPattern,
    /// A note length of the rhythm pattern has a zero denominator.
    InvalidNoteDuration,
    /// The instrument is above the highest MIDI program.
    InvalidInstrument,
}

/// The first fault of the settings that the pitch producer is built from.
pub open spec fn pitch_config_error(c: SequencerConfiguration) -> Option<ConfigurationError> {
    if c.quantizer_scale@.len() == 0 {
        Some(ConfigurationError::EmptyScale)
    } else if !(is_midi_pitch(c.min_pitch) && is_midi_pitch(c.max_pitch) && step_of(c.min_pitch) <= step_of(
        c.max_pitch,
    )) {
        Some(ConfigurationError::InvalidPitchRange)
    } else if c.cycle_length == 0 {
        Some(ConfigurationError::ZeroCycleLength)
    } else {
        None
    }
}

/// The first fault of the settings that the trigger producer is built from.
pub open spec fn trigger_config_error(c: SequencerConfiguration) -> Option<ConfigurationError> {
    if !valid_tempo(c.bpm as int) {
        Some(ConfigurationError::InvalidTempo)
    } else if exists|i: int| 0 <= i < 4 && #[trigger] c.notes_per_beat@[i] == 0 {
        Some(ConfigurationError::InvalidBeatGrouping)
    } else if c.fire_denominator == 0 || c.fire_numerator > c.fire_denominator {
        Some(ConfigurationError::InvalidProbability)
    } else {
        None
    }
}

/// The first fault of a rhythm pattern.
pub open spec fn pattern_error(p: Seq<NoteDuration>) -> Option<ConfigurationError> {
    if p.len() == 0 {
        Some(ConfigurationError::EmptyRhythmPattern)
    } else if exists|i: int| 0 <= i < p.len() && (#[trigger] p[i]).denominator == 0 {
        Some(ConfigurationError::InvalidNoteDuration)
    } else {
        None
    }
}

/// The first fault of an instrument number.
pub open spec fn instrument_error(i: u8) -> Option<ConfigurationError> {
    if i > INSTRUMENT_MAX {
        Some(ConfigurationError::InvalidInstrument)
    } else {
        None
    }
}

/// The first fault of a whole configuration.
pub open spec fn config_error(c: SequencerConfiguration) -> Option<ConfigurationError> {
    if pitch_config_error(c) is Some {
        pitch_config_error(c)
    } else if trigger_config_error(c) is Some {
        trigger_config_error(c)
    } else if pattern_error(c.rhythm_pattern@) is Some {
        pattern_error(c.rhythm_pattern@)
    } else {
        instrument_error(c.instrument)
    }
}

/// The first fault of the pitch settings of `c`.
pub fn check_pitch_config(c: &SequencerConfiguration) -> (r: Option<ConfigurationError>)
    ensures
        r == pitch_config_error(*c),
{
    if c.quantizer_scale.len() == 0 {
        return Some(ConfigurationError::EmptyScale);
    }
    let lo = c.min_pitch.step();
    let hi = c.max_pitch.step();
    if !(0 <= lo && lo <= MIDI_NOTE_MAX as i64 && 0 <= hi && hi <= MIDI_NOTE_MAX as i64 && lo <= hi) {
        return Some(ConfigurationError::InvalidPitchRange);
    }
    if c.cycle_length == 0 {
        return Some(ConfigurationError::ZeroCycleLength);
    }
    None
}

/// The first fault of the trigger settings of `c`.
pub fn check_trigger_config(c: &SequencerConfiguration) -> (r: Option<ConfigurationError>)
    ensures
        r == trigger_config_error(*c),
{
    if !(1 <= c.bpm as u64 && c.bpm as u64 <= TICKS_PER_QUARTER_NOTE * BPM) {
        return Some(ConfigurationError::InvalidTempo);
    }
    let mut i: usize = 0;
    while i < 4
        invariant
            0 <= i <= 4,
            valid_tempo(c.bpm as int),
            forall|j: int| 0 <= j < i ==> #[trigger] c.notes_per_beat@[j] != 0,
        decreases 4 - i,
    {
        if c.notes_per_beat[i] == 0 {
            assert(c.notes_per_beat@[i as int] == 0);
            return Some(ConfigurationError::InvalidBeatGrouping);
        }
        i = i + 1;
    }
    if c.fire_denominator == 0 || c.fire_numerator > c.fire_denominator {
        return Some(ConfigurationError::InvalidProbability);
    }
    None
}

/// The first fault of a rhythm pattern.
pub fn check_pattern(p: &Vec<NoteDuration>) -> (r: Option<ConfigurationError>)
    ensures
        r == pattern_error(p@),
        r is None <==> valid_pattern(p@),
{
    if p.len() == 0 {
        return Some(ConfigurationError::EmptyRhythmPattern);
    }
    let mut i: usize = 0;
    while i < p.len()
        invariant
            0 <= i <= p.len(),
            forall|j: int| 0 <= j < i ==> (#[trigger] p@[j]).denominator != 0,
        decreases p.len() - i,
    {
        if p[i].denominator == 0 {
            assert(p@[i as int].denominator == 0);
            return Some(ConfigurationError::InvalidNoteDuration);
        }
        i = i + 1;
    }
    None
}

impl SequencerConfiguration {
    /// The first fault of this configuration, if any.
    pub fn validate(&self) -> (r: Result<(), ConfigurationError>)
        ensures
            r is Err <==> config_error(*self) is Some,
            r matches Err(e) ==> config_error(*self) == Some(e),
    {
        if let Some(e) = check_pitch_config(self) {
            return Err(e);
        }
        if let Some(e) = check_trigger_config(self) {
            return Err(e);
        }
        if let Some(e) = check_pattern(&self.rhythm_pattern) {
            return Err(e);
        }
        if self.instrument > INSTRUMENT_MAX {
            return Err(ConfigurationError::InvalidInstrument);
        }
        Ok(())
    }
}

// ---------------------------------------------------------------------------
// Building producers

/// The fresh producer of shape `c.pitch_producer_type` over `c`'s settings.
pub open spec fn fresh_source(c: SequencerConfiguration, s: PitchSource) -> bool {
    let state = PeriodicState {
        cycle_length: c.cycle_length as int,
        min: step_of(c.min_pitch),
        max: step_of(c.max_pitch),
        counter: 0,
    };
    &&& s.wf()
    &&& match c.pitch_producer_type {
        PitchProducerType::Random => s matches PitchSource::Random(p) && p.range() == (
            step_of(c.min_pitch),
            step_of(c.max_pitch),
        ),
        PitchProducerType::RampUp => s matches PitchSource::Ramp(p) && p@ == state,
        PitchProducerType::Square => s matches PitchSource::Square(p) && p@ == state,
        PitchProducerType::Sine => s matches PitchSource::Sine(p) && p@ == state,
    }
}

/// The fresh rhythm divider over `c`'s settings, around a producer that
/// fires with `c`'s chance.
pub open spec fn fresh_divider(c: SequencerConfiguration, t: RhythmDivider) -> bool {
    &&& t.wf()
    &&& t.input().probability() == (c.fire_numerator as int, c.fire_denominator as int)
    &&& t@ == (RhythmState {
        factor: beat_factor(c.bpm as int),
        counter: 0,
        notes_per_beat: c.notes_per_beat@,
        beat_index: 0,
        beat_note: 0,
    })
}

/// The pitch producer that `c` describes, quantized to its scale.
pub fn build_pitch_producer(c: &SequencerConfiguration) -> (r: Result<PitchQuantizer, ConfigurationError>)
    ensures
        r is Err <==> pitch_config_error(*c) is Some,
        r matches Err(e) ==> pitch_config_error(*c) == Some(e),
        r matches Ok(q) ==> q.wf() && q.scale() == c.quantizer_scale@ && fresh_source(*c, q.input()),
{
    if let Some(e) = check_pitch_config(c) {
        return Err(e);
    }
    let source = match c.pitch_producer_type {
        PitchProducerType::Random => PitchSource::Random(RandomPitchProducer::new(c.min_pitch, c.max_pitch)),
        PitchProducerType::RampUp => PitchSource::Ramp(
            RampPitchProducer::new(c.cycle_length, c.min_pitch, c.max_pitch),
        ),
        PitchProducerType::Square => PitchSource::Square(
            SquarePitchProducer::new(c.cycle_length, c.min_pitch, c.max_pitch),
        ),
        PitchProducerType::Sine => PitchSource::Sine(
            SinePitchProducer::new(c.cycle_length, c.min_pitch, c.max_pitch),
        ),
    };
    Ok(PitchQuantizer::new(source, c.quantizer_scale.clone()))
}

/// The trigger producer that `c` describes: a rhythm divider at `c`'s tempo
/// and beat grouping.
pub fn build_trigger_producer(c: &SequencerConfiguration) -> (r: Result<RhythmDivider, ConfigurationError>)
    ensures
        r is Err <==> trigger_config_error(*c) is Some,
        r matches Err(e) ==> trigger_config_error(*c) == Some(e),
        r matches Ok(t) ==> fresh_divider(*c, t),
{
    if let Some(e) = check_trigger_config(c) {
        return Err(e);
    }
    let factor = (TICKS_PER_QUARTER_NOTE * BPM / c.bpm as u64) as u32;
    assert(1 <= factor <= MAX_FACTOR) by (nonlinear_arith)
        requires factor == 2400int / (c.bpm as int), 1 <= c.bpm <= 2400;
    let input = RandomTriggerProducer::with_probability(c.fire_numerator, c.fire_denominator);
    Ok(RhythmDivider::new(input, factor, c.notes_per_beat))
}


// ---------------------------------------------------------------------------
// The engine

/// A change to a running engine.
pub enum SequencerCommand {
    Start,
    Stop,
    SetPitchProducer(PitchQuantizer),
    SetTriggerProducer(RhythmDivider),
    SetInstrument(u8),
    SetRhythmPattern(Vec<NoteDuration>),
    SetTempo(u32),
}

impl SequencerCommand {
    /// The values that a command carries are playable. Every value that
    /// the facade lets through meets it.
    pub open spec fn carries_valid_values(&self) -> bool {
        match self {
            SequencerCommand::SetInstrument(i) => *i <= INSTRUMENT_MAX,
            SequencerCommand::SetRhythmPattern(p) => valid_pattern(p@),
            SequencerCommand::SetTempo(t) => valid_tempo(*t as int),
            _ => true,
        }
    }
}

/// The state of an engine.
pub struct EngineState {
    pub pitch_producer: PitchQuantizer,
    pub trigger_producer: RhythmDivider,
    pub is_playing: bool,
    pub instrument: u8,
    pub tempo: int,
    pub rhythm_pattern: Seq<NoteDuration>,
    pub current_rhythm_index: int,
}

impl EngineState {
    pub open spec fn wf(self) -> bool {
        &&& self.pitch_producer.wf()
        &&& self.trigger_producer.wf()
        &&& self.instrument <= INSTRUMENT_MAX
        &&& valid_tempo(self.tempo)
        &&& valid_pattern(self.rhythm_pattern)
        &&& 0 <= self.current_rhythm_index < self.rhythm_pattern.len()
    }

    /// The state after taking command `cmd`.
    pub open spec fn apply(self, cmd: SequencerCommand) -> EngineState {
        match cmd {
            SequencerCommand::Start => EngineState { is_playing: true, ..self },
            SequencerCommand::Stop => EngineState { is_playing: false, ..self },
            SequencerCommand::SetPitchProducer(q) => EngineState { pitch_producer: q, ..self },
            SequencerCommand::SetTriggerProducer(t) => EngineState { trigger_producer: t, ..self },
            SequencerCommand::SetInstrument(i) => EngineState { instrument: i, ..self },
            SequencerCommand::SetRhythmPattern(p) => EngineState {
                rhythm_pattern: p@,
                current_rhythm_index: 0,
                ..self
            },
            SequencerCommand::SetTempo(t) => EngineState { tempo: t as int, ..self },
        }
    }

    /// The note event that a tick which fired on pitch `p` asks for.
    pub open spec fn note_for(self, p: LetterOctave) -> NoteEvent {
        NoteEvent {
            instrument: self.instrument,
            note: midi_note(p) as u8,
            duration_ms: duration_ms(self.rhythm_pattern[self.current_rhythm_index], self.tempo) as u64,
        }
    }
}

/// Sending Start to a playing engine, or Stop to a stopped one, changes
/// nothing; and sending either twice is the same as sending it once.
pub proof fn law_start_stop_idempotent(s: EngineState)
    ensures
        s.is_playing ==> s.apply(SequencerCommand::Start) == s,
        !s.is_playing ==> s.apply(SequencerCommand::Stop) == s,
        s.apply(SequencerCommand::Start).apply(SequencerCommand::Start) == s.apply(SequencerCommand::Start),
        s.apply(SequencerCommand::Stop).apply(SequencerCommand::Stop) == s.apply(SequencerCommand::Stop),
{
}

/// Replacing the pitch producer leaves the trigger producer as it was, and
/// replacing the trigger producer leaves the pitch producer as it was, along
/// with the rest of the engine's state.
pub proof fn law_hot_swap(s: EngineState, q: PitchQuantizer, t: RhythmDivider)
    ensures
        s.apply(SequencerCommand::SetPitchProducer(q)).trigger_producer == s.trigger_producer,
        s.apply(SequencerCommand::SetPitchProducer(q)) == (EngineState { pitch_producer: q, ..s }),
        s.apply(SequencerCommand::SetTriggerProducer(t)).pitch_producer == s.pitch_producer,
        s.apply(SequencerCommand::SetTriggerProducer(t)) == (EngineState { trigger_producer: t, ..s }),
{
}

/// A note to play: a program change to `instrument`, then `note` on, held for
/// `duration_ms`, then off.
#[derive(Clone, Copy, Debug, PartialEq, Eq, Structural)]
pub struct NoteEvent {
    pub instrument: u8,
    pub note: u8,
    pub duration_ms: u64,
}

impl NoteEvent {
    /// The program change message that precedes the note.
    pub fn program_change(&self) -> (r: [u8; 2])
        ensures
            r@ == seq![PROGRAM_CHANGE_MSG, self.instrument],
    {
        let r = [PROGRAM_CHANGE_MSG, self.instrument];
        assert(r@ =~= seq![PROGRAM_CHANGE_MSG, self.instrument]);
        r
    }

    /// The note-on message.
    pub fn note_on(&self) -> (r: [u8; 3])
        ensures
            r@ == seq![NOTE_ON_MSG, self.note, VELOCITY],
    {
        let r = [NOTE_ON_MSG, self.note, VELOCITY];
        assert(r@ =~= seq![NOTE_ON_MSG, self.note, VELOCITY]);
        r
    }

    /// The note-off message.
    pub fn note_off(&self) -> (r: [u8; 3])
        ensures
            r@ == seq![NOTE_OFF_MSG, self.note, VELOCITY],
    {
        let r = [NOTE_OFF_MSG, self.note, VELOCITY];
        assert(r@ =~= seq![NOTE_OFF_MSG, self.note, VELOCITY]);
        r
    }
}

/// The engine: the live producers and the playback state. It takes commands
/// and, tick by tick, decides which note to play; sending the messages and
/// waiting out the note are left to its host.
///
/// Every engine that `new` or `from_configuration` returns is well-formed,
/// and every method keeps it so; likewise every producer that the library's
/// constructors return, which is all that a command can carry.
pub struct Engine {
    pitch_producer: PitchQuantizer,
    trigger_producer: RhythmDivider,
    is_playing: bool,
    instrument: u8,
    tempo: u32,
    rhythm_pattern: Vec<NoteDuration>,
    current_rhythm_index: usize,
}

impl View for Engine {
    type V = EngineState;

    closed spec fn view(&self) -> EngineState {
        EngineState {
            pitch_producer: self.pitch_producer,
            trigger_producer: self.trigger_producer,
            is_playing: self.is_playing,
            instrument: self.instrument,
            tempo: self.tempo as int,
            rhythm_pattern: self.rhythm_pattern@,
            current_rhythm_index: self.current_rhythm_index as int,
        }
    }
}

impl Engine {
    pub fn new(
        pitch_producer: PitchQuantizer,
        trigger_producer: RhythmDivider,
        is_playing: bool,
        instrument: u8,
        tempo: u32,
        rhythm_pattern: Vec<NoteDuration>,
    ) -> (r: Engine)
        requires
            pitch_producer.wf(),
            trigger_producer.wf(),
            instrument <= INSTRUMENT_MAX,
            valid_tempo(tempo as int),
            valid_pattern(rhythm_pattern@),
        ensures
            r@.wf(),
            r@ == (EngineState {
                pitch_producer,
                trigger_producer,
                is_playing,
                instrument,
                tempo: tempo as int,
                rhythm_pattern: rhythm_pattern@,
                current_rhythm_index: 0,
            }),
    {
        Engine {
            pitch_producer,
            trigger_producer,
            is_playing,
            instrument,
            tempo,
            rhythm_pattern,
            current_rhythm_index: 0,
        }
    }

    /// An engine for configuration `c`, or the first fault of `c`.
    pub fn from_configuration(c: SequencerConfiguration, is_playing: bool) -> (r: Result<Engine, ConfigurationError>)
        ensures
            r is Err <==> config_error(c) is Some,
            r matches Err(e) ==> config_error(c) == Some(e),
            r matches Ok(engine) ==> {
                &&& engine@.wf()
                &&& fresh_source(c, engine@.pitch_producer.input())
                &&& engine@.pitch_producer.scale() == c.quantizer_scale@
                &&& fresh_divider(c, engine@.trigger_producer)
                &&& engine@.is_playing == is_playing
                &&& engine@.instrument == c.instrument
                &&& engine@.tempo == c.bpm
                &&& engine@.rhythm_pattern == c.rhythm_pattern@
                &&& engine@.current_rhythm_index == 0
            },
    {
        let pitch_producer = match build_pitch_producer(&c) {
            Ok(q) => q,
            Err(e) => return Err(e),
        };
        let trigger_producer = match build_trigger_producer(&c) {
            Ok(t) => t,
            Err(e) => return Err(e),
        };
        if let Some(e) = check_pattern(&c.rhythm_pattern) {
            return Err(e);
        }
        if c.instrument > INSTRUMENT_MAX {
            return Err(ConfigurationError::InvalidInstrument);
        }
        Ok(Engine::new(pitch_producer, trigger_producer, is_playing, c.instrument, c.bpm, c.rhythm_pattern))
    }

    pub fn is_playing(&self) -> (r: bool)
        ensures
            r == self@.is_playing,
    {
        self.is_playing
    }

    pub fn instrument(&self) -> (r: u8)
        ensures
            r == self@.instrument,
    {
        self.instrument
    }

    pub fn tempo(&self) -> (r: u32)
        ensures
            r == self@.tempo,
    {
        self.tempo
    }

    /// The position in the rhythm pattern of the next note.
    pub fn rhythm_position(&self) -> (r: usize)
        ensures
            r == self@.current_rhythm_index,
    {
        self.current_rhythm_index
    }

    pub fn trigger_producer(&self) -> (r: &RhythmDivider)
        ensures
            *r == self@.trigger_producer,
    {
        &self.trigger_producer
    }

    /// Takes one command, unless it carries a value that the engine cannot
    /// play (an instrument above the MIDI range, a faulty rhythm pattern, a
    /// tempo out of range): that one is refused and nothing changes.
    pub fn apply(&mut self, cmd: SequencerCommand) -> (taken: bool)
        requires
            old(self)@.wf(),
            cmd matches SequencerCommand::SetPitchProducer(q) ==> q.wf(),
            cmd matches SequencerCommand::SetTriggerProducer(t) ==> t.wf(),
        ensures
            final(self)@.wf(),
            taken == cmd.carries_valid_values(),
            taken ==> final(self)@ == old(self)@.apply(cmd),
            !taken ==> final(self)@ == old(self)@,
    {
        let taken = match &cmd {
            SequencerCommand::SetInstrument(i) => *i <= INSTRUMENT_MAX,
            SequencerCommand::SetRhythmPattern(p) => check_pattern(p).is_none(),
            SequencerCommand::SetTempo(t) => 1 <= *t as u64 && *t as u64 <= TICKS_PER_QUARTER_NOTE * BPM,
            _ => true,
        };
        if !taken {
            return false;
        }
        match cmd {
            SequencerCommand::Start => {
                if !self.is_playing {
                    self.is_playing = true;
                }
            },
            SequencerCommand::Stop => {
                if self.is_playing {
                    self.is_playing = false;
                }
            },
            SequencerCommand::SetPitchProducer(q) => {
                self.pitch_producer = q;
            },
            SequencerCommand::SetTriggerProducer(t) => {
                self.trigger_producer = t;
            },
            SequencerCommand::SetInstrument(i) => {
                self.instrument = i;
            },
            SequencerCommand::SetRhythmPattern(p) => {
                self.rhythm_pattern = p;
                self.current_rhythm_index = 0;
            },
            SequencerCommand::SetTempo(t) => {
                self.tempo = t;
            },
        }
        true
    }

    /// One tick. A stopped engine does nothing. A playing one ticks its pitch
    /// producer, then its trigger producer, and on a firing asks for the
    /// quantized pitch at the current instrument, held for the length of the
    /// current rhythm pattern entry at the current tempo. The pattern
    /// position moves on only through `note_played`.
    pub fn tick(&mut self) -> (r: Option<NoteEvent>)
        requires
            old(self)@.wf(),
        ensures
            final(self)@.wf(),
            !old(self)@.is_playing ==> final(self)@ == old(self)@ && r is None,
            old(self)@.is_playing ==> exists|p: LetterOctave, t: Trigger|
                #[trigger] quantizer_ticked(old(self)@.pitch_producer, final(self)@.pitch_producer, p)
                && #[trigger] divider_ticked(old(self)@.trigger_producer, final(self)@.trigger_producer, t)
                && final(self)@ == (EngineState {
                    pitch_producer: final(self)@.pitch_producer,
                    trigger_producer: final(self)@.trigger_producer,
                    ..old(self)@
                })
                && r == (if t == Trigger::On {
                    Some(old(self)@.note_for(p))
                } else {
                    None
                }),
    {
        if !self.is_playing {
            return None;
        }
        let pitch = self.pitch_producer.tick();
        let trigger = self.trigger_producer.tick();
        match trigger {
            Trigger::On => {
                let step = pitch.step();
                let note: u8 = if step < 0 {
                    0
                } else if step > MIDI_NOTE_MAX as i64 {
                    MIDI_NOTE_MAX as u8
                } else {
                    step as u8
                };
                let d = self.rhythm_pattern[self.current_rhythm_index];
                proof {
                    assert(d.denominator > 0);
                    assert(d.numerator * 60_000 <= 0xffff_ffff * 60_000) by (nonlinear_arith)
                        requires d.numerator <= 0xffff_ffff;
                    assert(d.denominator * self.tempo <= 0xffff_ffff * 0xffff_ffff) by (nonlinear_arith)
                        requires d.denominator <= 0xffff_ffff, self.tempo <= 0xffff_ffff;
                    assert(d.denominator * self.tempo > 0) by (nonlinear_arith)
                        requires d.denominator > 0, self.tempo > 0;
                }
                let duration = (d.numerator as u64 * 60_000) / (d.denominator as u64 * self.tempo as u64);
                Some(NoteEvent { instrument: self.instrument, note, duration_ms: duration })
            },
            Trigger::Off => None,
        }
    }

    /// Moves to the next entry of the rhythm pattern, after the host has
    /// sounded the note that `tick` asked for.
    pub fn note_played(&mut self)
        requires
            old(self)@.wf(),
        ensures
            final(self)@.wf(),
            final(self)@ == (EngineState {
                current_rhythm_index: (old(self)@.current_rhythm_index + 1) % old(self)@.rhythm_pattern.len() as int,
                ..old(self)@
            }),
    {
        assert(self.current_rhythm_index < self.rhythm_pattern.len());
        self.current_rhythm_index = (self.current_rhythm_index + 1) % self.rhythm_pattern.len();
    }
}


// ---------------------------------------------------------------------------
// The facade

#[verifier::external_type_specification]
#[verifier::external_body]
#[verifier::reject_recursive_types(T)]
pub struct ExSender<T>(std::sync::mpsc::Sender<T>);

#[verifier::external_type_specification]
#[verifier::external_body]
#[verifier::reject_recursive_types(T)]
pub struct ExReceiver<T>(std::sync::mpsc::Receiver<T>);

/// Relies on `std::sync::mpsc::channel`: an unbounded queue that delivers in
/// the order of sending.
#[verifier::external_body]
fn command_channel() -> (r: (std::sync::mpsc::Sender<SequencerCommand>, std::sync::mpsc::Receiver<SequencerCommand>)) {
    std::sync::mpsc::channel()
}

/// Relies on `std::sync::mpsc::Sender::send`, which fails only when the
/// receiving end is gone; tells whether the command was queued.
#[verifier::external_body]
fn send_command(sender: &std::sync::mpsc::Sender<SequencerCommand>, cmd: SequencerCommand) -> (sent: bool) {
    sender.send(cmd).is_ok()
}

/// Why the facade could not pass a change on.
#[derive(Clone, Copy, Debug, PartialEq, Eq, Structural)]
pub enum SequencerError {
    /// The change describes nothing that can be played.
    Configuration(ConfigurationError),
    /// The engine no longer takes commands.
    Disconnected,
}

/// What the user interface holds: it builds producers up front, so that a
/// faulty setting is refused at once, and queues commands to the engine.
pub struct Sequencer {
    sender: std::sync::mpsc::Sender<SequencerCommand>,
    handed: Ghost<Seq<SequencerCommand>>,
}

/// `q` is the pitch producer that `config` describes, fresh.
pub open spec fn built_pitch_producer(config: SequencerConfiguration, q: PitchQuantizer) -> bool {
    q.wf() && q.scale() == config.quantizer_scale@ && fresh_source(config, q.input())
}

impl Sequencer {
    /// Every command handed to the queue so far, in order of sending.
    pub closed spec fn handed(&self) -> Seq<SequencerCommand> {
        self.handed@
    }

    /// A facade, the engine for `config`, and the end of the command queue
    /// that the engine's host drains before each of its ticks; or the first
    /// fault of `config`.
    pub fn new(config: SequencerConfiguration, is_playing: bool) -> (r: Result<
        (Sequencer, Engine, std::sync::mpsc::Receiver<SequencerCommand>),
        ConfigurationError,
    >)
        ensures
            r is Err <==> config_error(config) is Some,
            r matches Err(e) ==> config_error(config) == Some(e),
            r matches Ok(parts) ==> {
                &&& parts.0.handed() == Seq::<SequencerCommand>::empty()
                &&& parts.1@.wf()
                &&& fresh_source(config, parts.1@.pitch_producer.input())
                &&& parts.1@.pitch_producer.scale() == config.quantizer_scale@
                &&& fresh_divider(config, parts.1@.trigger_producer)
                &&& parts.1@.is_playing == is_playing
                &&& parts.1@.instrument == config.instrument
                &&& parts.1@.tempo == config.bpm
                &&& parts.1@.rhythm_pattern == config.rhythm_pattern@
                &&& parts.1@.current_rhythm_index == 0
            },
    {
        let engine = match Engine::from_configuration(config, is_playing) {
            Ok(engine) => engine,
            Err(e) => return Err(e),
        };
        let (sender, receiver) = command_channel();
        Ok((Sequencer { sender, handed: Ghost(Seq::empty()) }, engine, receiver))
    }

    /// Hands `cmd` to the queue; fails only when the engine no longer takes
    /// commands.
    fn send(&mut self, cmd: SequencerCommand) -> (r: Result<(), SequencerError>)
        ensures
            final(self).handed() == old(self).handed().push(cmd),
            r matches Err(e) ==> e == SequencerError::Disconnected,
    {
        let ghost handed = self.handed@.push(cmd);
        self.handed = Ghost(handed);
        if send_command(&self.sender, cmd) {
            Ok(())
        } else {
            Err(SequencerError::Disconnected)
        }
    }

    /// Queues `Start`.
    pub fn start(&mut self) -> (r: Result<(), SequencerError>)
        ensures
            final(self).handed() == old(self).handed().push(SequencerCommand::Start),
            r matches Err(e) ==> e == SequencerError::Disconnected,
    {
        self.send(SequencerCommand::Start)
    }

    /// Queues `Stop`.
    pub fn stop(&mut self) -> (r: Result<(), SequencerError>)
        ensures
            final(self).handed() == old(self).handed().push(SequencerCommand::Stop),
            r matches Err(e) ==> e == SequencerError::Disconnected,
    {
        self.send(SequencerCommand::Stop)
    }

    /// Queues `SetInstrument(instrument)`, or refuses an instrument above the
    /// MIDI range without queueing anything.
    pub fn update_instrument(&mut self, instrument: u8) -> (r: Result<(), SequencerError>)
        ensures
            instrument > INSTRUMENT_MAX <==> r == Err::<(), SequencerError>(
                SequencerError::Configuration(ConfigurationError::InvalidInstrument),
            ),
            instrument > INSTRUMENT_MAX ==> final(self).handed() == old(self).handed(),
            instrument <= INSTRUMENT_MAX ==> final(self).handed() == old(self).handed().push(
                SequencerCommand::SetInstrument(instrument),
            ),
            r matches Err(e) ==> e == SequencerError::Disconnected || instrument > INSTRUMENT_MAX,
    {
        if instrument > INSTRUMENT_MAX {
            return Err(SequencerError::Configuration(ConfigurationError::InvalidInstrument));
        }
        self.send(SequencerCommand::SetInstrument(instrument))
    }

    /// Queues `SetRhythmPattern(rhythm_pattern)`, or refuses a faulty pattern
    /// without queueing anything.
    pub fn update_rhythm_pattern(&mut self, rhythm_pattern: Vec<NoteDuration>) -> (r: Result<(), SequencerError>)
        ensures
            pattern_error(rhythm_pattern@) matches Some(e) ==> r == Err::<(), SequencerError>(
                SequencerError::Configuration(e),
            ) && final(self).handed() == old(self).handed(),
            pattern_error(rhythm_pattern@) is None ==> {
                &&& r matches Err(e) ==> e == SequencerError::Disconnected
                &&& final(self).handed() == old(self).handed().push(
                    SequencerCommand::SetRhythmPattern(rhythm_pattern),
                )
            },
    {
        if let Some(e) = check_pattern(&rhythm_pattern) {
            return Err(SequencerError::Configuration(e));
        }
        self.send(SequencerCommand::SetRhythmPattern(rhythm_pattern))
    }

    /// Builds the pitch producer that `config` describes and queues it, or
    /// refuses faulty pitch settings without queueing anything.
    pub fn update_pitch_producer(&mut self, config: SequencerConfiguration) -> (r: Result<(), SequencerError>)
        ensures
            pitch_config_error(config) matches Some(e) ==> r == Err::<(), SequencerError>(
                SequencerError::Configuration(e),
            ) && final(self).handed() == old(self).handed(),
            pitch_config_error(config) is None ==> {
                &&& r matches Err(e) ==> e == SequencerError::Disconnected
                &&& exists|q: PitchQuantizer|
                    #[trigger] built_pitch_producer(config, q) && final(self).handed() == old(
                        self,
                    ).handed().push(SequencerCommand::SetPitchProducer(q))
            },
    {
        match build_pitch_producer(&config) {
            Ok(q) => {
                let ghost g = q;
                let r = self.send(SequencerCommand::SetPitchProducer(q));
                assert(built_pitch_producer(config, g));
                r
            },
            Err(e) => Err(SequencerError::Configuration(e)),
        }
    }

    /// Builds the trigger producer that `config` describes and queues it,
    /// followed by `config`'s tempo; or refuses faulty trigger settings
    /// without queueing anything. When the engine is gone after the first
    /// command, the tempo is not sent.
    pub fn update_trigger_producer(&mut self, config: SequencerConfiguration) -> (r: Result<(), SequencerError>)
        ensures
            trigger_config_error(config) matches Some(e) ==> r == Err::<(), SequencerError>(
                SequencerError::Configuration(e),
            ) && final(self).handed() == old(self).handed(),
            trigger_config_error(config) is None ==> {
                &&& r matches Err(e) ==> e == SequencerError::Disconnected
                &&& exists|t: RhythmDivider|
                    #[trigger] fresh_divider(config, t) && {
                        ||| final(self).handed() == old(self).handed().push(
                            SequencerCommand::SetTriggerProducer(t),
                        ).push(SequencerCommand::SetTempo(config.bpm))
                        ||| r is Err && final(self).handed() == old(self).handed().push(
                            SequencerCommand::SetTriggerProducer(t),
                        )
                    }
                &&& r is Ok ==> exists|t: RhythmDivider|
                    #[trigger] fresh_divider(config, t) && final(self).handed() == old(
                        self,
                    ).handed().push(SequencerCommand::SetTriggerProducer(t)).push(
                        SequencerCommand::SetTempo(config.bpm),
                    )
            },
    {
        match build_trigger_producer(&config) {
            Ok(t) => {
                let ghost g = t;
                let r = match self.send(SequencerCommand::SetTriggerProducer(t)) {
                    Ok(()) => self.send(SequencerCommand::SetTempo(config.bpm)),
                    Err(e) => Err(e),
                };
                assert(fresh_divider(config, g));
                r
            },
            Err(e) => Err(SequencerError::Configuration(e)),
        }
    }
}

} // verus!
