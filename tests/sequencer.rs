use gen_sequencer::pitch::{Letter, LetterOctave, PitchProducerType, PitchSource, PitchQuantizer, SquarePitchProducer};
use gen_sequencer::sequencer::{
    build_pitch_producer, build_trigger_producer, tick_period_ms, ConfigurationError, Engine, NoteDuration,
    NoteEvent, Sequencer, SequencerCommand, SequencerConfiguration, SequencerError,
};

fn quarter() -> NoteDuration {
    NoteDuration { numerator: 1, denominator: 1 }
}

fn config() -> SequencerConfiguration {
    SequencerConfiguration {
        min_pitch: LetterOctave(Letter::C, 3),
        max_pitch: LetterOctave(Letter::C, 4),
        pitch_producer_type: PitchProducerType::RampUp,
        cycle_length: 4,
        rhythm_pattern: vec![quarter(), quarter(), quarter(), quarter()],
        notes_per_beat: [1, 1, 1, 1],
        instrument: 10,
        quantizer_scale: vec![Letter::C, Letter::D, Letter::E, Letter::F, Letter::G, Letter::A, Letter::B],
        bpm: 120,
        fire_numerator: 1,
        fire_denominator: 1,
    }
}

fn error_of(c: SequencerConfiguration) -> ConfigurationError {
    c.validate().unwrap_err()
}

#[test]
fn tick_period_is_25_ms() {
    assert_eq!(tick_period_ms(), 25);
}

#[test]
fn valid_configuration_passes() {
    assert_eq!(config().validate(), Ok(()));
}

#[test]
fn each_configuration_error() {
    let mut c = config();
    c.quantizer_scale = vec![];
    assert_eq!(error_of(c), ConfigurationError::EmptyScale);
    let mut c = config();
    c.min_pitch = LetterOctave(Letter::D, 4);
    assert_eq!(error_of(c), ConfigurationError::InvalidPitchRange);
    let mut c = config();
    c.max_pitch = LetterOctave(Letter::Ash, 9);
    assert_eq!(error_of(c), ConfigurationError::InvalidPitchRange);
    let mut c = config();
    c.cycle_length = 0;
    assert_eq!(error_of(c), ConfigurationError::ZeroCycleLength);
    let mut c = config();
    c.bpm = 0;
    assert_eq!(error_of(c), ConfigurationError::InvalidTempo);
    let mut c = config();
    c.bpm = 2401;
    assert_eq!(error_of(c), ConfigurationError::InvalidTempo);
    let mut c = config();
    c.notes_per_beat = [1, 1, 0, 1];
    assert_eq!(error_of(c), ConfigurationError::InvalidBeatGrouping);
    let mut c = config();
    c.fire_denominator = 0;
    assert_eq!(error_of(c), ConfigurationError::InvalidProbability);
    let mut c = config();
    c.fire_numerator = 3;
    c.fire_denominator = 2;
    assert_eq!(error_of(c), ConfigurationError::InvalidProbability);
    let mut c = config();
    c.rhythm_pattern = vec![];
    assert_eq!(error_of(c), ConfigurationError::EmptyRhythmPattern);
    let mut c = config();
    c.rhythm_pattern = vec![quarter(), NoteDuration { numerator: 1, denominator: 0 }];
    assert_eq!(error_of(c), ConfigurationError::InvalidNoteDuration);
    let mut c = config();
    c.instrument = 128;
    assert_eq!(error_of(c), ConfigurationError::InvalidInstrument);
}

#[test]
fn first_error_wins() {
    let mut c = config();
    c.quantizer_scale = vec![];
    c.cycle_length = 0;
    c.bpm = 0;
    assert_eq!(error_of(c), ConfigurationError::EmptyScale);
}

#[test]
fn builders_refuse_faulty_settings() {
    let mut c = config();
    c.quantizer_scale = vec![];
    assert_eq!(build_pitch_producer(&c).err(), Some(ConfigurationError::EmptyScale));
    assert!(build_trigger_producer(&c).is_ok());
    let mut c = config();
    c.notes_per_beat = [0, 1, 1, 1];
    assert!(build_pitch_producer(&c).is_ok());
    assert_eq!(build_trigger_producer(&c).err(), Some(ConfigurationError::InvalidBeatGrouping));
}

#[test]
fn trigger_factor_follows_tempo() {
    let t = build_trigger_producer(&config()).ok().unwrap();
    let mut t = t;
    let fired: Vec<bool> = (0..41).map(|_| t.tick() == gen_sequencer::trigger::Trigger::On).collect();
    let on: Vec<usize> = (0..41).filter(|i| fired[*i]).collect();
    assert_eq!(on, vec![0, 20, 40]);
}

#[test]
fn note_event_messages() {
    let e = NoteEvent { instrument: 10, note: 60, duration_ms: 500 };
    assert_eq!(e.program_change(), [0xC0, 10]);
    assert_eq!(e.note_on(), [0x90, 60, 0x64]);
    assert_eq!(e.note_off(), [0x80, 60, 0x64]);
}

#[test]
fn start_stop_idempotent() {
    let mut e = Engine::from_configuration(config(), false).ok().unwrap();
    e.apply(SequencerCommand::Stop);
    assert!(!e.is_playing());
    assert_eq!(e.tick(), None);
    assert_eq!(e.trigger_producer().counter(), 0);
    e.apply(SequencerCommand::Start);
    e.apply(SequencerCommand::Start);
    assert!(e.is_playing());
    assert_eq!(e.instrument(), 10);
    assert_eq!(e.tempo(), 120);
    assert_eq!(e.rhythm_position(), 0);
}

#[test]
fn paused_engine_keeps_phase() {
    let mut e = Engine::from_configuration(config(), true).ok().unwrap();
    e.tick();
    e.tick();
    let counter = e.trigger_producer().counter();
    e.apply(SequencerCommand::Stop);
    for _ in 0..10 {
        assert_eq!(e.tick(), None);
    }
    assert_eq!(e.trigger_producer().counter(), counter);
}

#[test]
fn end_to_end_one_pattern_cycle() {
    let mut e = Engine::from_configuration(config(), false).ok().unwrap();
    e.apply(SequencerCommand::Start);
    let mut notes = Vec::new();
    let mut ticks = 0;
    while ticks < 80 {
        ticks += 1;
        if let Some(n) = e.tick() {
            notes.push(n);
            e.note_played();
        }
    }
    assert_eq!(notes.len(), 4);
    assert_eq!(e.rhythm_position(), 0);
    for n in &notes {
        assert_eq!(n.instrument, 10);
        assert_eq!(n.duration_ms, 500);
        assert_eq!(n.program_change(), [0xC0, 10]);
        assert_eq!(n.note_on()[0], 0x90);
        assert_eq!(n.note_off()[0], 0x80);
    }
    for w in notes.windows(2) {
        assert!(w[0].note <= w[1].note);
    }
}

#[test]
fn end_to_end_ascending_ramp_on_every_tick() {
    let mut c = config();
    c.bpm = 2400;
    let mut e = Engine::from_configuration(c, true).ok().unwrap();
    let notes: Vec<u8> = (0..4).map(|_| {
        let n = e.tick().unwrap();
        e.note_played();
        n.note
    }).collect();
    assert_eq!(notes, vec![48, 52, 57, 60]);
}

#[test]
fn rhythm_pattern_sets_durations_and_resets_position() {
    let mut c = config();
    c.bpm = 2400;
    let mut e = Engine::from_configuration(c, true).ok().unwrap();
    e.tick().unwrap();
    e.note_played();
    assert_eq!(e.rhythm_position(), 1);
    e.apply(SequencerCommand::SetRhythmPattern(vec![
        NoteDuration { numerator: 1, denominator: 2 },
        NoteDuration { numerator: 3, denominator: 1 },
    ]));
    assert_eq!(e.rhythm_position(), 0);
    assert_eq!(e.tick().unwrap().duration_ms, 12);
    e.note_played();
    e.apply(SequencerCommand::SetTempo(60));
    assert_eq!(e.tick().unwrap().duration_ms, 3000);
    e.note_played();
    assert_eq!(e.rhythm_position(), 0);
}

#[test]
fn instrument_change_reaches_notes() {
    let mut c = config();
    c.bpm = 2400;
    let mut e = Engine::from_configuration(c, true).ok().unwrap();
    e.apply(SequencerCommand::SetInstrument(42));
    assert_eq!(e.tick().unwrap().instrument, 42);
}

#[test]
fn hot_swap_keeps_other_producer() {
    let mut e = Engine::from_configuration(config(), true).ok().unwrap();
    for _ in 0..7 {
        e.tick();
    }
    let counter = e.trigger_producer().counter();
    let slot = e.trigger_producer().beat_index();
    let square = SquarePitchProducer::new(2, LetterOctave(Letter::C, 2), LetterOctave(Letter::C, 5));
    e.apply(SequencerCommand::SetPitchProducer(PitchQuantizer::new(PitchSource::Square(square), vec![Letter::C])));
    assert_eq!(e.trigger_producer().counter(), counter);
    assert_eq!(e.trigger_producer().beat_index(), slot);
    let fresh = build_trigger_producer(&config()).ok().unwrap();
    e.apply(SequencerCommand::SetTriggerProducer(fresh));
    assert_eq!(e.trigger_producer().counter(), 0);
    let n = e.tick().unwrap();
    assert_eq!(n.note, 36);
}

#[test]
fn facade_refuses_faulty_changes() {
    let (mut s, _engine, _rx) = Sequencer::new(config(), true).ok().unwrap();
    assert_eq!(
        s.update_instrument(200),
        Err(SequencerError::Configuration(ConfigurationError::InvalidInstrument))
    );
    assert_eq!(
        s.update_rhythm_pattern(vec![]),
        Err(SequencerError::Configuration(ConfigurationError::EmptyRhythmPattern))
    );
    let mut c = config();
    c.cycle_length = 0;
    assert_eq!(
        s.update_pitch_producer(c),
        Err(SequencerError::Configuration(ConfigurationError::ZeroCycleLength))
    );
    let mut c = config();
    c.bpm = 0;
    assert_eq!(
        s.update_trigger_producer(c),
        Err(SequencerError::Configuration(ConfigurationError::InvalidTempo))
    );
}

#[test]
fn facade_queues_commands_in_order() {
    let (mut s, mut engine, rx) = Sequencer::new(config(), false).ok().unwrap();
    assert_eq!(s.start(), Ok(()));
    assert_eq!(s.update_instrument(5), Ok(()));
    let mut c = config();
    c.bpm = 60;
    assert_eq!(s.update_trigger_producer(c), Ok(()));
    assert_eq!(s.stop(), Ok(()));
    let cmds: Vec<SequencerCommand> = rx.try_iter().collect();
    assert_eq!(cmds.len(), 5);
    assert!(matches!(cmds[0], SequencerCommand::Start));
    assert!(matches!(cmds[1], SequencerCommand::SetInstrument(5)));
    assert!(matches!(cmds[2], SequencerCommand::SetTriggerProducer(_)));
    assert!(matches!(cmds[3], SequencerCommand::SetTempo(60)));
    assert!(matches!(cmds[4], SequencerCommand::Stop));
    for cmd in cmds {
        engine.apply(cmd);
    }
    assert!(!engine.is_playing());
    assert_eq!(engine.instrument(), 5);
    assert_eq!(engine.tempo(), 60);
}

#[test]
fn facade_reports_disconnected_engine() {
    let (mut s, _engine, rx) = Sequencer::new(config(), true).ok().unwrap();
    drop(rx);
    assert_eq!(s.start(), Err(SequencerError::Disconnected));
}

#[test]
fn facade_refuses_faulty_configuration() {
    let mut c = config();
    c.quantizer_scale = vec![];
    assert_eq!(Sequencer::new(c, true).err(), Some(ConfigurationError::EmptyScale));
}

#[test]
fn engine_refuses_unplayable_values() {
    let mut e = Engine::from_configuration(config(), true).ok().unwrap();
    assert!(!e.apply(SequencerCommand::SetInstrument(128)));
    assert!(!e.apply(SequencerCommand::SetTempo(0)));
    assert!(!e.apply(SequencerCommand::SetRhythmPattern(vec![])));
    assert_eq!(e.instrument(), 10);
    assert_eq!(e.tempo(), 120);
    assert!(e.apply(SequencerCommand::SetInstrument(127)));
    assert_eq!(e.instrument(), 127);
}

#[test]
fn zero_fire_chance_plays_nothing() {
    let mut c = config();
    c.bpm = 2400;
    c.fire_numerator = 0;
    let mut e = Engine::from_configuration(c, true).ok().unwrap();
    for _ in 0..50 {
        assert_eq!(e.tick(), None);
    }
    assert_eq!(e.rhythm_position(), 0);
}

#[test]
fn facade_queues_pitch_and_pattern_changes() {
    let (mut s, mut engine, rx) = Sequencer::new(config(), true).ok().unwrap();
    let mut c = config();
    c.pitch_producer_type = PitchProducerType::Square;
    c.min_pitch = LetterOctave(Letter::C, 2);
    c.cycle_length = 2;
    assert_eq!(s.update_pitch_producer(c), Ok(()));
    assert_eq!(s.update_rhythm_pattern(vec![NoteDuration { numerator: 1, denominator: 2 }]), Ok(()));
    assert_eq!(s.update_instrument(200).is_err(), true);
    let cmds: Vec<SequencerCommand> = rx.try_iter().collect();
    assert_eq!(cmds.len(), 2);
    assert!(matches!(cmds[0], SequencerCommand::SetPitchProducer(_)));
    assert!(matches!(cmds[1], SequencerCommand::SetRhythmPattern(_)));
    for cmd in cmds {
        assert!(engine.apply(cmd));
    }
    let mut c2 = config();
    c2.bpm = 2400;
    let fast = build_trigger_producer(&c2).ok().unwrap();
    engine.apply(SequencerCommand::SetTriggerProducer(fast));
    let n = engine.tick().unwrap();
    assert_eq!(n.note, 36);
    assert_eq!(n.duration_ms, 250);
}
