use gen_sequencer::pitch::{
    quantize, Letter, LetterOctave, PitchProducerType, PitchQuantizer, PitchSource, RampPitchProducer,
    RandomPitchProducer, SinePitchProducer, SquarePitchProducer,
};

fn major() -> Vec<Letter> {
    vec![Letter::C, Letter::D, Letter::E, Letter::F, Letter::G, Letter::A, Letter::B]
}

fn steps_of(mut next: impl FnMut() -> LetterOctave, n: usize) -> Vec<i64> {
    (0..n).map(|_| next().step()).collect()
}

#[test]
fn step_round_trip() {
    assert_eq!(LetterOctave(Letter::C, 4).step(), 60);
    assert_eq!(LetterOctave(Letter::A, 4).step(), 69);
    assert_eq!(LetterOctave(Letter::C, -1).step(), 0);
    assert_eq!(LetterOctave::from_step(61), LetterOctave(Letter::Csh, 4));
    assert_eq!(LetterOctave::from_step(0), LetterOctave(Letter::C, -1));
    for s in 0..128 {
        assert_eq!(LetterOctave::from_step(s).step(), s as i64);
    }
}

#[test]
fn letter_index_round_trip() {
    for i in 0..12u8 {
        assert_eq!(Letter::from_index(i).index(), i);
    }
}

#[test]
fn quantize_exact_match_unchanged() {
    let p = LetterOctave(Letter::E, 3);
    assert_eq!(quantize(&major(), p), p);
}

#[test]
fn quantize_up_same_octave() {
    assert_eq!(quantize(&major(), LetterOctave(Letter::Csh, 3)), LetterOctave(Letter::D, 3));
    assert_eq!(quantize(&major(), LetterOctave(Letter::Gsh, 5)), LetterOctave(Letter::A, 5));
}

#[test]
fn quantize_wraps_to_next_octave() {
    let scale = vec![Letter::D, Letter::E];
    assert_eq!(quantize(&scale, LetterOctave(Letter::G, 2)), LetterOctave(Letter::D, 3));
}

#[test]
fn quantize_ignores_scale_order() {
    let scale = vec![Letter::A, Letter::E, Letter::C];
    assert_eq!(quantize(&scale, LetterOctave(Letter::D, 4)), LetterOctave(Letter::E, 4));
    assert_eq!(quantize(&scale, LetterOctave(Letter::B, 4)), LetterOctave(Letter::C, 5));
}

#[test]
fn quantize_every_pitch_lands_in_scale() {
    let scale = vec![Letter::Dsh, Letter::Ash];
    for s in 0..128 {
        let p = LetterOctave::from_step(s);
        let q = quantize(&scale, p);
        assert!(scale.contains(&q.0));
        assert!(q.1 == p.1 || q.1 == p.1 + 1);
        assert!(q.step() >= p.step());
    }
}

#[test]
fn ramp_five_ticks_zero_to_eight() {
    let mut r = RampPitchProducer::new(5, LetterOctave::from_step(0), LetterOctave::from_step(8));
    assert_eq!(steps_of(|| r.tick(), 7), vec![0, 2, 4, 6, 8, 0, 2]);
}

#[test]
fn ramp_rounds_to_nearest() {
    let mut r = RampPitchProducer::new(4, LetterOctave(Letter::C, 3), LetterOctave(Letter::C, 4));
    assert_eq!(steps_of(|| r.tick(), 5), vec![48, 52, 56, 60, 48]);
}

#[test]
fn ramp_cycle_of_one_holds_min() {
    let mut r = RampPitchProducer::new(1, LetterOctave::from_step(40), LetterOctave::from_step(50));
    assert_eq!(steps_of(|| r.tick(), 3), vec![40, 40, 40]);
}

#[test]
fn square_four_ticks() {
    let mut s = SquarePitchProducer::new(4, LetterOctave::from_step(10), LetterOctave::from_step(20));
    assert_eq!(steps_of(|| s.tick(), 9), vec![10, 10, 20, 20, 10, 10, 20, 20, 10]);
}

#[test]
fn sine_starts_at_midpoint_and_repeats() {
    let mut s = SinePitchProducer::new(4, LetterOctave::from_step(48), LetterOctave::from_step(60));
    assert_eq!(steps_of(|| s.tick(), 9), vec![54, 60, 54, 48, 54, 60, 54, 48, 54]);
}

#[test]
fn sine_stays_in_range_and_is_periodic() {
    let mut s = SinePitchProducer::new(64, LetterOctave::from_step(36), LetterOctave::from_step(84));
    let v = steps_of(|| s.tick(), 128);
    assert_eq!(v[0], 60);
    assert_eq!(v[16], 84);
    assert_eq!(v[48], 36);
    for i in 0..64 {
        assert!(36 <= v[i] && v[i] <= 84);
        assert_eq!(v[i], v[i + 64]);
    }
}

#[test]
fn random_stays_in_range() {
    let mut r = RandomPitchProducer::new(LetterOctave::from_step(40), LetterOctave::from_step(45));
    let v = steps_of(|| r.tick(), 500);
    assert!(v.iter().all(|s| 40 <= *s && *s <= 45));
    assert!(v.iter().any(|s| *s != v[0]));
}

#[test]
fn random_equal_bounds_returns_min() {
    let mut r = RandomPitchProducer::new(LetterOctave::from_step(40), LetterOctave::from_step(40));
    assert_eq!(steps_of(|| r.tick(), 5), vec![40, 40, 40, 40, 40]);
}

#[test]
fn quantizer_snaps_producer_output() {
    let ramp = RampPitchProducer::new(4, LetterOctave(Letter::C, 3), LetterOctave(Letter::C, 4));
    let mut q = PitchQuantizer::new(PitchSource::Ramp(ramp), major());
    assert_eq!(steps_of(|| q.tick(), 4), vec![48, 52, 57, 60]);
}

#[test]
fn producer_type_names() {
    assert_eq!(PitchProducerType::Random.name(), "Random");
    assert_eq!(PitchProducerType::RampUp.name(), "Ramp");
    assert_eq!(PitchProducerType::Square.name(), "Square");
    assert_eq!(PitchProducerType::Sine.name(), "Sine");
}

#[test]
fn producer_type_from_name() {
    assert_eq!(PitchProducerType::from_name("Random"), Some(PitchProducerType::Random));
    assert_eq!(PitchProducerType::from_name("Ramp"), Some(PitchProducerType::RampUp));
    assert_eq!(PitchProducerType::from_name("Square"), Some(PitchProducerType::Square));
    assert_eq!(PitchProducerType::from_name("Sine"), Some(PitchProducerType::Sine));
    assert_eq!(PitchProducerType::from_name("RampUp"), None);
    assert_eq!(PitchProducerType::from_name(""), None);
    assert_eq!(PitchProducerType::from_name("sine"), None);
}
