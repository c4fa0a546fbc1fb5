use noteblock::catalog::{
    decimal_string, instrument_name, pitch_name, preview, semitones_from_reference, Trigger,
    INSTRUMENT_COUNT, REFERENCE_PITCH,
};

#[test]
fn catalog_holds_sixteen_instruments() {
    assert_eq!(INSTRUMENT_COUNT, 16);
    let expected = [
        "harp",
        "dbass",
        "bdrum",
        "sdrum",
        "click",
        "guitar",
        "flute",
        "bell",
        "icechime",
        "xylobone",
        "iron_xylophone",
        "cow_bell",
        "didgeridoo",
        "bit",
        "banjo",
        "pling",
    ];
    for (index, name) in expected.iter().enumerate() {
        assert_eq!(instrument_name(index as u8), Some(*name));
    }
    assert_eq!(instrument_name(16), None);
    assert_eq!(instrument_name(255), None);
}

#[test]
fn pitch_names_give_class_and_octave() {
    assert_eq!(pitch_name(0), "C-1");
    assert_eq!(pitch_name(11), "B-1");
    assert_eq!(pitch_name(12), "C0");
    assert_eq!(pitch_name(60), "C4");
    assert_eq!(pitch_name(66), "F#4");
    assert_eq!(pitch_name(69), "A4");
    assert_eq!(pitch_name(127), "G9");
    assert_eq!(pitch_name(132), "C10");
    assert_eq!(pitch_name(255), "D#20");
}

#[test]
fn decimal_strings() {
    assert_eq!(decimal_string(0), "0");
    assert_eq!(decimal_string(7), "7");
    assert_eq!(decimal_string(10), "10");
    assert_eq!(decimal_string(1905), "1905");
    assert_eq!(decimal_string(usize::MAX), usize::MAX.to_string());
}

#[test]
fn reference_pitch_is_zero_semitones() {
    assert_eq!(REFERENCE_PITCH, 66);
    assert_eq!(semitones_from_reference(66), 0);
    assert_eq!(semitones_from_reference(78), 12);
    assert_eq!(semitones_from_reference(54), -12);
    assert_eq!(semitones_from_reference(0), -66);
    assert_eq!(semitones_from_reference(255), 189);
}

#[test]
fn preview_sounds_the_reference_pitch() {
    assert_eq!(preview(5), Trigger { instrument: 5, pitch: 66 });
}
