use gen_sequencer::trigger::{ClockDivider, RandomTriggerProducer, RhythmDivider, Trigger};

#[test]
fn from_bool_maps_both() {
    assert_eq!(Trigger::from_bool(true), Trigger::On);
    assert_eq!(Trigger::from_bool(false), Trigger::Off);
}

#[test]
fn random_trigger_defaults_to_always() {
    let mut t = RandomTriggerProducer::new();
    for _ in 0..100 {
        assert_eq!(t.tick(), Trigger::On);
    }
}

#[test]
fn random_trigger_zero_probability_never_fires() {
    let mut t = RandomTriggerProducer::with_probability(0, 5);
    for _ in 0..100 {
        assert_eq!(t.tick(), Trigger::Off);
    }
}

#[test]
fn random_trigger_half_probability_mixes() {
    let mut t = RandomTriggerProducer::with_probability(1, 2);
    let v: Vec<Trigger> = (0..500).map(|_| t.tick()).collect();
    assert!(v.contains(&Trigger::On));
    assert!(v.contains(&Trigger::Off));
}

#[test]
fn clock_divider_every_third_tick() {
    let mut d = ClockDivider::new(RandomTriggerProducer::new(), 3);
    let v: Vec<Trigger> = (0..7).map(|_| d.tick()).collect();
    let (on, off) = (Trigger::On, Trigger::Off);
    assert_eq!(v, vec![on, off, off, on, off, off, on]);
}

#[test]
fn rhythm_divider_one_note_per_slot() {
    let mut d = RhythmDivider::new(RandomTriggerProducer::new(), 4, [1, 1, 1, 1]);
    let mut fired = Vec::new();
    let mut slots = Vec::new();
    for _ in 0..17 {
        fired.push(d.tick() == Trigger::On);
        slots.push(d.beat_index());
    }
    let on: Vec<usize> = (0..17).filter(|i| fired[*i]).collect();
    assert_eq!(on, vec![0, 4, 8, 12, 16]);
    assert_eq!(slots[0], 0);
    assert_eq!(slots[4], 1);
    assert_eq!(slots[8], 2);
    assert_eq!(slots[12], 3);
    assert_eq!(slots[16], 0);
    for w in on.windows(2) {
        assert_eq!(w[1] - w[0], 4);
    }
}

#[test]
fn rhythm_divider_two_notes_in_a_slot() {
    let mut d = RhythmDivider::new(RandomTriggerProducer::new(), 4, [2, 1, 1, 1]);
    let v: Vec<bool> = (0..5).map(|_| d.tick() == Trigger::On).collect();
    assert_eq!(v, vec![true, false, true, false, true]);
    assert_eq!(d.beat_note(), 3);
    assert_eq!(d.beat_index(), 0);
}

#[test]
fn rhythm_divider_silent_producer_still_advances() {
    let mut d = RhythmDivider::new(RandomTriggerProducer::with_probability(0, 1), 4, [1, 1, 1, 1]);
    for _ in 0..5 {
        assert_eq!(d.tick(), Trigger::Off);
    }
    assert_eq!(d.beat_index(), 1);
    assert_eq!(d.counter(), 1);
}
