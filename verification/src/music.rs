use vstd::prelude::*;

verus! {

/// A frequency in hertz.
#[derive(Clone, Copy, Debug, PartialEq, Eq, Structural)]
pub struct Hertz(pub u32);

/// Length of a note relative to a beat (a quarter note is one beat).
#[derive(Clone, Copy, Debug, PartialEq, Eq, Structural)]
pub enum NoteDuration {
    Whole,
    Half,
    Quarter,
    Eighth,
    Sixteenth,
}

/// Tempo in beats per minute.
#[derive(Clone, Copy, Debug, PartialEq, Eq, Structural)]
pub struct Bpm(pub u32);

/// Milliseconds of one beat at the tempo `bpm`.
pub open spec fn ms_per_beat(bpm: u32) -> int
    recommends
        bpm > 0,
{
    60_000int / (bpm as int)
}

/// Milliseconds that a note of length `duration` lasts at tempo `bpm`.
pub open spec fn duration_ms(duration: NoteDuration, bpm: u32) -> int
    recommends
        bpm > 0,
{
    let beat = ms_per_beat(bpm);
    match duration {
        NoteDuration::Whole => beat * 4,
        NoteDuration::Half => beat * 2,
        NoteDuration::Quarter => beat,
        NoteDuration::Eighth => beat / 2,
        NoteDuration::Sixteenth => beat / 4,
    }
}

/// How long a note of the given duration lasts, in milliseconds, at the given tempo.
pub fn note_duration_to_ms(duration: NoteDuration, tempo: Bpm) -> (ms: u32)
    requires
        tempo.0 > 0,
    ensures
        ms == duration_ms(duration, tempo.0),
{
    let ms_per_beat = 60_000 / tempo.0;
    assert(ms_per_beat <= 60_000);
    let ms = match duration {
        NoteDuration::Whole => ms_per_beat * 4,
        NoteDuration::Half => ms_per_beat * 2,
        NoteDuration::Quarter => ms_per_beat,
        NoteDuration::Eighth => ms_per_beat / 2,
        NoteDuration::Sixteenth => ms_per_beat / 4,
    };
    ms
}

/// An octave of the speaker's range; `Four` is the highest.
#[derive(Clone, Copy, Debug, PartialEq, Eq, Structural)]
pub enum Octave {
    One,
    Two,
    Three,
    Four,
}

/// The twelve pitch classes of the chromatic scale.
#[derive(Clone, Copy, Debug, PartialEq, Eq, Structural)]
pub enum PitchClass {
    C,
    CSharp,
    D,
    DSharp,
    E,
    F,
    FSharp,
    G,
    GSharp,
    A,
    ASharp,
    B,
}

/// A pitch: a pitch class in an octave.
#[derive(Clone, Copy, Debug, PartialEq, Eq, Structural)]
pub struct Pitch {
    pub note: PitchClass,
    pub octave: Octave,
}

/// A note: how long it lasts and what it sounds.
#[derive(Clone, Copy, Debug, PartialEq, Eq, Structural)]
pub struct Note {
    pub duration: NoteDuration,
    /// The pitch of the note, if any.
    /// None means a pause.
    pub pitch: Option<Pitch>,
}

/// A sequence of notes played at one tempo.
pub struct Melody {
    pub notes: &'static [Note],
    pub tempo: Bpm,
}

/// Frequency, in hertz, of each pitch class in the highest octave.
pub open spec fn octave4_hz(note: PitchClass) -> u32 {
    match note {
        PitchClass::C => 2093,
        PitchClass::CSharp => 2217,
        PitchClass::D => 2349,
        PitchClass::DSharp => 2489,
        PitchClass::E => 2637,
        PitchClass::F => 2794,
        PitchClass::FSharp => 2960,
        PitchClass::G => 3136,
        PitchClass::GSharp => 3322,
        PitchClass::A => 3520,
        PitchClass::ASharp => 3729,
        PitchClass::B => 3951,
    }
}

/// How many octaves `octave` lies below the highest one.
pub open spec fn octaves_below_top(octave: Octave) -> nat {
    match octave {
        Octave::Four => 0,
        Octave::Three => 1,
        Octave::Two => 2,
        Octave::One => 3,
    }
}

/// Frequency of a pitch: the top octave's frequency halved once per octave
/// below it, with integer division.
pub open spec fn pitch_hz(pitch: Pitch) -> u32 {
    let top = octave4_hz(pitch.note);
    match pitch.octave {
        Octave::Four => top,
        Octave::Three => top / 2,
        Octave::Two => top / 4,
        Octave::One => top / 8,
    }
}

/// Frequency of a pitch class in the highest octave.
pub fn get_frequency_for_octave4(note: PitchClass) -> (freq: Hertz)
    ensures
        freq.0 == octave4_hz(note),
{
    let freq = match note {
        PitchClass::C => 2093,
        PitchClass::CSharp => 2217,
        PitchClass::D => 2349,
        PitchClass::DSharp => 2489,
        PitchClass::E => 2637,
        PitchClass::F => 2794,
        PitchClass::FSharp => 2960,
        PitchClass::G => 3136,
        PitchClass::GSharp => 3322,
        PitchClass::A => 3520,
        PitchClass::ASharp => 3729,
        PitchClass::B => 3951,
    };
    Hertz(freq)
}

/// Frequency of a pitch: the highest octave's frequency divided by two for
/// each octave below it.
pub fn get_pitch_freq(pitch: Pitch) -> (freq: Hertz)
    ensures
        freq.0 == pitch_hz(pitch),
{
    let octave4_freq = get_frequency_for_octave4(pitch.note).0;

    let freq = match pitch.octave {
        Octave::Four => octave4_freq,
        Octave::Three => octave4_freq / 2,
        Octave::Two => octave4_freq / 4,
        Octave::One => octave4_freq / 8,
    };

    Hertz(freq)
}

/// The tune played when the game is lost: a falling chromatic line.
pub fn melody_game_over() -> (m: Melody)
    ensures
        m.tempo.0 == 120,
        m.notes@ == seq![
            Note { duration: NoteDuration::Quarter, pitch: Some(Pitch { note: PitchClass::D, octave: Octave::Two }) },
            Note { duration: NoteDuration::Quarter, pitch: Some(Pitch { note: PitchClass::CSharp, octave: Octave::Two }) },
            Note { duration: NoteDuration::Quarter, pitch: Some(Pitch { note: PitchClass::C, octave: Octave::Two }) },
            Note { duration: NoteDuration::Half, pitch: Some(Pitch { note: PitchClass::B, octave: Octave::One }) },
        ],
{
    Melody {
        tempo: Bpm(120),
        notes: &[
            Note {
                duration: NoteDuration::Quarter,
                pitch: Some(Pitch { note: PitchClass::D, octave: Octave::Two }),
            },
            Note {
                duration: NoteDuration::Quarter,
                pitch: Some(Pitch { note: PitchClass::CSharp, octave: Octave::Two }),
            },
            Note {
                duration: NoteDuration::Quarter,
                pitch: Some(Pitch { note: PitchClass::C, octave: Octave::Two }),
            },
            Note {
                duration: NoteDuration::Half,
                pitch: Some(Pitch { note: PitchClass::B, octave: Octave::One }),
            },
        ],
    }
}

/// The position of a pitch class in the chromatic scale, from C.
pub open spec fn class_rank(note: PitchClass) -> int {
    match note {
        PitchClass::C => 0,
        PitchClass::CSharp => 1,
        PitchClass::D => 2,
        PitchClass::DSharp => 3,
        PitchClass::E => 4,
        PitchClass::F => 5,
        PitchClass::FSharp => 6,
        PitchClass::G => 7,
        PitchClass::GSharp => 8,
        PitchClass::A => 9,
        PitchClass::ASharp => 10,
        PitchClass::B => 11,
    }
}

/// The number of an octave, from 1 (lowest) to 4 (highest).
pub open spec fn octave_rank(octave: Octave) -> int {
    match octave {
        Octave::One => 1,
        Octave::Two => 2,
        Octave::Three => 3,
        Octave::Four => 4,
    }
}

/// The position of a pitch on the keyboard: semitones counted upwards.
pub open spec fn semitone(pitch: Pitch) -> int {
    octave_rank(pitch.octave) * 12 + class_rank(pitch.note)
}

/// Law: one octave down halves the frequency, rounding down.
pub proof fn lemma_octave_halves(note: PitchClass, lower: Octave, upper: Octave)
    requires
        octave_rank(upper) == octave_rank(lower) + 1,
    ensures
        pitch_hz(Pitch { note, octave: lower }) == pitch_hz(Pitch { note, octave: upper }) / 2,
{
}

/// Law: a higher pitch on the keyboard sounds at a higher frequency.
pub proof fn lemma_higher_pitch_higher_freq(p: Pitch, q: Pitch)
    requires
        semitone(p) < semitone(q),
    ensures
        pitch_hz(p) < pitch_hz(q),
{
}

/// Law: among the note durations each lasts at least twice the next shorter
/// one; a whole note lasts exactly two halves and a half exactly two
/// quarters.
pub proof fn lemma_durations_halve(bpm: u32)
    requires
        bpm > 0,
    ensures
        duration_ms(NoteDuration::Whole, bpm) == 2 * duration_ms(NoteDuration::Half, bpm),
        duration_ms(NoteDuration::Half, bpm) == 2 * duration_ms(NoteDuration::Quarter, bpm),
        duration_ms(NoteDuration::Quarter, bpm) >= 2 * duration_ms(NoteDuration::Eighth, bpm),
        duration_ms(NoteDuration::Eighth, bpm) >= 2 * duration_ms(NoteDuration::Sixteenth, bpm),
{
}

/// Law: a faster tempo never makes a note last longer.
pub proof fn lemma_faster_is_shorter(duration: NoteDuration, slow: u32, fast: u32)
    requires
        0 < slow <= fast,
    ensures
        duration_ms(duration, fast) <= duration_ms(duration, slow),
{
    let b_slow = ms_per_beat(slow);
    let b_fast = ms_per_beat(fast);
    vstd::arithmetic::div_mod::lemma_div_is_ordered_by_denominator(60_000, slow as int, fast as int);
    vstd::arithmetic::div_mod::lemma_div_is_ordered(b_fast, b_slow, 2);
    vstd::arithmetic::div_mod::lemma_div_is_ordered(b_fast, b_slow, 4);
}

/// Law: the top octave is tuned in equal temperament to A at 3520 Hz (so
/// the A of the lowest octave is 440 Hz): each semitone up, B to the next
/// octave's C included, raises the frequency by a factor between 1.059 and
/// 1.060 (twelfth root of two is 1.05946).
pub proof fn lemma_top_octave_equal_tempered(p: PitchClass, q: PitchClass)
    ensures
        octave4_hz(PitchClass::A) == 3520,
        pitch_hz(Pitch { note: PitchClass::A, octave: Octave::One }) == 440,
        class_rank(q) == class_rank(p) + 1 ==> 10590 * octave4_hz(p) <= 10000 * octave4_hz(q)
            <= 10600 * octave4_hz(p),
        p == PitchClass::B && q == PitchClass::C ==> 10590 * octave4_hz(p) <= 10000 * (2
            * octave4_hz(q)) <= 10600 * octave4_hz(p),
{
}

/// Law: over the whole range, one semitone up raises the frequency by a
/// factor between 1.057 and 1.062 (the halving of lower octaves rounds
/// down).
pub proof fn lemma_semitone_step(p: Pitch, q: Pitch)
    requires
        semitone(q) == semitone(p) + 1,
    ensures
        1057 * pitch_hz(p) <= 1000 * pitch_hz(q) <= 1062 * pitch_hz(p),
{
}

/// Law: a quarter note lasts one beat, so that `bpm` of them fill a minute
/// (rounding down to whole milliseconds), and the other durations are fixed
/// multiples and fractions of it: a whole is four quarters, a half two, an
/// eighth half a quarter and a sixteenth a quarter of one, rounding down.
pub proof fn lemma_quarter_is_one_beat(bpm: u32)
    requires
        bpm > 0,
    ensures
        duration_ms(NoteDuration::Quarter, bpm) * bpm <= 60_000 < (duration_ms(NoteDuration::Quarter, bpm) + 1) * bpm,
        duration_ms(NoteDuration::Whole, bpm) == 4 * duration_ms(NoteDuration::Quarter, bpm),
        duration_ms(NoteDuration::Half, bpm) == 2 * duration_ms(NoteDuration::Quarter, bpm),
        2 * duration_ms(NoteDuration::Eighth, bpm) <= duration_ms(NoteDuration::Quarter, bpm) <= 2 * duration_ms(NoteDuration::Eighth, bpm) + 1,
        4 * duration_ms(NoteDuration::Sixteenth, bpm) <= duration_ms(NoteDuration::Quarter, bpm) <= 4 * duration_ms(NoteDuration::Sixteenth, bpm) + 3,
{
    let q = duration_ms(NoteDuration::Quarter, bpm);
    assert(q == 60_000int / (bpm as int));
    vstd::arithmetic::div_mod::lemma_fundamental_div_mod(60_000int, bpm as int);
    assert(q * bpm <= 60_000 < (q + 1) * bpm) by (nonlinear_arith)
        requires
            q == 60_000int / (bpm as int),
            60_000int == (bpm as int) * (60_000int / (bpm as int)) + 60_000int % (bpm as int),
            0 <= 60_000int % (bpm as int) < bpm,
    ;
}

} // verus!
