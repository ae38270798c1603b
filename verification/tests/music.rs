use micro_shooter::music::{
    get_frequency_for_octave4, get_pitch_freq, melody_game_over, note_duration_to_ms, Bpm, Hertz,
    NoteDuration, Octave, Pitch, PitchClass,
};

const CLASSES: [PitchClass; 12] = [
    PitchClass::C,
    PitchClass::CSharp,
    PitchClass::D,
    PitchClass::DSharp,
    PitchClass::E,
    PitchClass::F,
    PitchClass::FSharp,
    PitchClass::G,
    PitchClass::GSharp,
    PitchClass::A,
    PitchClass::ASharp,
    PitchClass::B,
];

const OCTAVES: [Octave; 4] = [Octave::One, Octave::Two, Octave::Three, Octave::Four];

#[test]
fn durations_at_120_bpm() {
    let t = Bpm(120);
    assert_eq!(note_duration_to_ms(NoteDuration::Whole, t), 2000);
    assert_eq!(note_duration_to_ms(NoteDuration::Half, t), 1000);
    assert_eq!(note_duration_to_ms(NoteDuration::Quarter, t), 500);
    assert_eq!(note_duration_to_ms(NoteDuration::Eighth, t), 250);
    assert_eq!(note_duration_to_ms(NoteDuration::Sixteenth, t), 125);
}

#[test]
fn durations_round_down() {
    let t = Bpm(7);
    // 60000 / 7 = 8571 ms per beat
    assert_eq!(note_duration_to_ms(NoteDuration::Whole, t), 34284);
    assert_eq!(note_duration_to_ms(NoteDuration::Quarter, t), 8571);
    assert_eq!(note_duration_to_ms(NoteDuration::Eighth, t), 4285);
    assert_eq!(note_duration_to_ms(NoteDuration::Sixteenth, t), 2142);
}

#[test]
fn durations_at_extreme_tempos() {
    assert_eq!(note_duration_to_ms(NoteDuration::Whole, Bpm(1)), 240_000);
    assert_eq!(note_duration_to_ms(NoteDuration::Quarter, Bpm(u32::MAX)), 0);
    assert_eq!(note_duration_to_ms(NoteDuration::Whole, Bpm(60_001)), 0);
}

#[test]
fn durations_halve_law() {
    for bpm in [1u32, 7, 60, 97, 120, 200, 1000] {
        let t = Bpm(bpm);
        let w = note_duration_to_ms(NoteDuration::Whole, t);
        let h = note_duration_to_ms(NoteDuration::Half, t);
        let q = note_duration_to_ms(NoteDuration::Quarter, t);
        let e = note_duration_to_ms(NoteDuration::Eighth, t);
        let s = note_duration_to_ms(NoteDuration::Sixteenth, t);
        assert_eq!(w, 2 * h);
        assert_eq!(h, 2 * q);
        assert!(q >= 2 * e);
        assert!(e >= 2 * s);
    }
}

#[test]
fn faster_is_shorter_law() {
    for d in [NoteDuration::Whole, NoteDuration::Half, NoteDuration::Quarter, NoteDuration::Eighth, NoteDuration::Sixteenth] {
        let mut prev = note_duration_to_ms(d, Bpm(1));
        for bpm in 2u32..400 {
            let now = note_duration_to_ms(d, Bpm(bpm));
            assert!(now <= prev);
            prev = now;
        }
    }
}

#[test]
fn top_octave_table() {
    assert_eq!(get_frequency_for_octave4(PitchClass::C), Hertz(2093));
    assert_eq!(get_frequency_for_octave4(PitchClass::D), Hertz(2349));
    assert_eq!(get_frequency_for_octave4(PitchClass::A), Hertz(3520));
    assert_eq!(get_frequency_for_octave4(PitchClass::B), Hertz(3951));
}

#[test]
fn pitch_frequencies() {
    let a = |o| get_pitch_freq(Pitch { note: PitchClass::A, octave: o }).0;
    assert_eq!(a(Octave::Four), 3520);
    assert_eq!(a(Octave::Three), 1760);
    assert_eq!(a(Octave::Two), 880);
    assert_eq!(a(Octave::One), 440);
    assert_eq!(get_pitch_freq(Pitch { note: PitchClass::D, octave: Octave::Two }).0, 587);
    assert_eq!(get_pitch_freq(Pitch { note: PitchClass::B, octave: Octave::One }).0, 493);
    assert_eq!(get_pitch_freq(Pitch { note: PitchClass::CSharp, octave: Octave::Three }).0, 1108);
}

#[test]
fn octave_halves_law() {
    for c in CLASSES {
        for w in OCTAVES.windows(2) {
            let low = get_pitch_freq(Pitch { note: c, octave: w[0] }).0;
            let high = get_pitch_freq(Pitch { note: c, octave: w[1] }).0;
            assert_eq!(low, high / 2);
        }
    }
}

#[test]
fn higher_pitch_higher_freq_law() {
    let mut prev = 0u32;
    for o in OCTAVES {
        for c in CLASSES {
            let f = get_pitch_freq(Pitch { note: c, octave: o }).0;
            assert!(f > prev);
            prev = f;
        }
    }
}

#[test]
fn game_over_melody() {
    let m = melody_game_over();
    assert_eq!(m.tempo, Bpm(120));
    assert_eq!(m.notes.len(), 4);
    assert_eq!(m.notes[0].duration, NoteDuration::Quarter);
    assert_eq!(m.notes[0].pitch, Some(Pitch { note: PitchClass::D, octave: Octave::Two }));
    assert_eq!(m.notes[1].pitch, Some(Pitch { note: PitchClass::CSharp, octave: Octave::Two }));
    assert_eq!(m.notes[2].pitch, Some(Pitch { note: PitchClass::C, octave: Octave::Two }));
    assert_eq!(m.notes[3].duration, NoteDuration::Half);
    assert_eq!(m.notes[3].pitch, Some(Pitch { note: PitchClass::B, octave: Octave::One }));
    let total: u32 = m.notes.iter().map(|n| note_duration_to_ms(n.duration, m.tempo)).sum();
    assert_eq!(total, 2500);
}
