//! The fixed catalog: which instruments exist, what a pitch is called, and
//! the request that asks the audio player to sound one note.

use vstd::prelude::*;
use vstd::string::StringExecFns;

verus! {

/// How many instruments the catalog holds. An instrument is known by its
/// index, from 0 up to this number.
pub const INSTRUMENT_COUNT: u8 = 16;

/// The pitch at which a sample sounds at the rate it was recorded at.
pub const REFERENCE_PITCH: u8 = 66;

/// A request to sound one note: handed to the audio player, which plays it
/// and reports nothing back.
#[derive(Clone, Copy, Debug, PartialEq, Eq, Structural)]
pub struct Trigger {
    pub instrument: u8,
    pub pitch: u8,
}

/// Whether each of these requests names an instrument of the catalog.
pub open spec fn sound_in_catalog(triggers: Seq<Trigger>) -> bool {
    forall|k: int|
        0 <= k < triggers.len() ==> (#[trigger] triggers[k]).instrument < INSTRUMENT_COUNT
}

/// The identifier of the instrument at `index`; unspecified past the end of
/// the catalog.
pub open spec fn instrument_name_of(index: int) -> Seq<char> {
    if index == 0 {
        "harp"@
    } else if index == 1 {
        "dbass"@
    } else if index == 2 {
        "bdrum"@
    } else if index == 3 {
        "sdrum"@
    } else if index == 4 {
        "click"@
    } else if index == 5 {
        "guitar"@
    } else if index == 6 {
        "flute"@
    } else if index == 7 {
        "bell"@
    } else if index == 8 {
        "icechime"@
    } else if index == 9 {
        "xylobone"@
    } else if index == 10 {
        "iron_xylophone"@
    } else if index == 11 {
        "cow_bell"@
    } else if index == 12 {
        "didgeridoo"@
    } else if index == 13 {
        "bit"@
    } else if index == 14 {
        "banjo"@
    } else {
        "pling"@
    }
}

/// The identifier of an instrument, or `None` where the catalog has no such
/// index.
pub fn instrument_name(index: u8) -> (result: Option<&'static str>)
    ensures
        result is Some <==> index < INSTRUMENT_COUNT,
        result matches Some(name) ==> name@ == instrument_name_of(index as int),
{
    match index {
        0 => Some("harp"),
        1 => Some("dbass"),
        2 => Some("bdrum"),
        3 => Some("sdrum"),
        4 => Some("click"),
        5 => Some("guitar"),
        6 => Some("flute"),
        7 => Some("bell"),
        8 => Some("icechime"),
        9 => Some("xylobone"),
        10 => Some("iron_xylophone"),
        11 => Some("cow_bell"),
        12 => Some("didgeridoo"),
        13 => Some("bit"),
        14 => Some("banjo"),
        15 => Some("pling"),
        _ => None,
    }
}

/// The request that lets the user hear an instrument: its sample at the
/// reference pitch.
pub fn preview(instrument: u8) -> (result: Trigger)
    ensures
        result == (Trigger { instrument, pitch: REFERENCE_PITCH }),
{
    Trigger { instrument, pitch: REFERENCE_PITCH }
}

/// How many semitones `pitch` lies above the reference pitch (below it,
/// where negative). The audio player doubles the playback rate for every
/// twelve of them.
pub fn semitones_from_reference(pitch: u8) -> (result: i16)
    ensures
        result == pitch - REFERENCE_PITCH,
{
    pitch as i16 - REFERENCE_PITCH as i16
}

/// The text of one decimal digit.
pub open spec fn digit_text(digit: nat) -> Seq<char> {
    if digit == 0 {
        "0"@
    } else if digit == 1 {
        "1"@
    } else if digit == 2 {
        "2"@
    } else if digit == 3 {
        "3"@
    } else if digit == 4 {
        "4"@
    } else if digit == 5 {
        "5"@
    } else if digit == 6 {
        "6"@
    } else if digit == 7 {
        "7"@
    } else if digit == 8 {
        "8"@
    } else {
        "9"@
    }
}

/// A natural number written in decimal, without leading zeros.
pub open spec fn decimal_text(n: nat) -> Seq<char>
    decreases n,
{
    if n < 10 {
        digit_text(n)
    } else {
        decimal_text(n / 10) + digit_text(n % 10)
    }
}

fn digit_str(digit: usize) -> (result: &'static str)
    requires
        digit < 10,
    ensures
        result@ == digit_text(digit as nat),
{
    match digit {
        0 => "0",
        1 => "1",
        2 => "2",
        3 => "3",
        4 => "4",
        5 => "5",
        6 => "6",
        7 => "7",
        8 => "8",
        _ => "9",
    }
}

/// Writes `n` in decimal.
pub fn decimal_string(n: usize) -> (result: String)
    ensures
        result@ == decimal_text(n as nat),
    decreases n,
{
    if n < 10 {
        String::from_str(digit_str(n))
    } else {
        let mut text = decimal_string(n / 10);
        text.append(digit_str(n % 10));
        text
    }
}

/// The name of one of the twelve pitch classes, counted from C.
pub open spec fn pitch_class_text(class: int) -> Seq<char> {
    if class == 0 {
        "C"@
    } else if class == 1 {
        "C#"@
    } else if class == 2 {
        "D"@
    } else if class == 3 {
        "D#"@
    } else if class == 4 {
        "E"@
    } else if class == 5 {
        "F"@
    } else if class == 6 {
        "F#"@
    } else if class == 7 {
        "G"@
    } else if class == 8 {
        "G#"@
    } else if class == 9 {
        "A"@
    } else if class == 10 {
        "A#"@
    } else {
        "B"@
    }
}

/// The octave number of a pitch as text. Pitch 0 lies in octave -1, pitch 12
/// in octave 0.
pub open spec fn octave_text(pitch: u8) -> Seq<char> {
    if pitch < 12 {
        "-1"@
    } else {
        decimal_text((pitch / 12 - 1) as nat)
    }
}

/// What a pitch is called: its pitch class, then its octave.
pub open spec fn pitch_text(pitch: u8) -> Seq<char> {
    pitch_class_text(pitch as int % 12) + octave_text(pitch)
}

fn pitch_class_str(class: u8) -> (result: &'static str)
    requires
        class < 12,
    ensures
        result@ == pitch_class_text(class as int),
{
    match class {
        0 => "C",
        1 => "C#",
        2 => "D",
        3 => "D#",
        4 => "E",
        5 => "F",
        6 => "F#",
        7 => "G",
        8 => "G#",
        9 => "A",
        10 => "A#",
        _ => "B",
    }
}

/// The name of a pitch for display, such as "F#4" for pitch 66.
pub fn pitch_name(pitch: u8) -> (result: String)
    ensures
        result@ == pitch_text(pitch),
{
    let mut name = String::from_str(pitch_class_str(pitch % 12));
    if pitch < 12 {
        name.append("-1");
    } else {
        let octave: usize = (pitch / 12 - 1) as usize;
        let digits = decimal_string(octave);
        name.append(digits.as_str());
    }
    name
}

} // verus!
