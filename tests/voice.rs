use dectalk_tts::voice::{paul_voice, u64_to_u16_loop, DectalkVoice, KeccakStream, RangeSpec, VoiceParam};

fn profile(values: [u16; 19]) -> DectalkVoice {
    DectalkVoice {
        sx: values[0] as u8,
        hs: values[1],
        f4: values[2],
        f5: values[3],
        b4: values[4],
        b5: values[5],
        br: values[6],
        lx: values[7],
        sm: values[8],
        ri: values[9],
        nf: values[10],
        la: values[11],
        bf: values[12],
        hr: values[13],
        sr: values[14],
        as_: values[15],
        qu: values[16],
        ap: values[17],
        pr: values[18],
    }
}

#[test]
fn generate_identity_zero_roll_zero() {
    let expected = profile([0, 67, 4337, 4113, 1717, 290, 13, 46, 77, 75, 26, 47, 6, 38, 52, 85, 12, 104, 135]);
    assert_eq!(DectalkVoice::generate(0, 0), expected);
}

#[test]
fn generate_identity_zero_roll_one() {
    let expected = profile([1, 101, 2979, 3036, 794, 1354, 48, 100, 90, 42, 48, 68, 16, 70, 82, 58, 47, 234, 39]);
    assert_eq!(DectalkVoice::generate(0, 1), expected);
}

#[test]
fn generate_mixed_identity_and_roll() {
    let expected = profile([1, 83, 2489, 4732, 1853, 917, 32, 79, 78, 85, 9, 70, 34, 29, 53, 21, 2, 189, 175]);
    assert_eq!(DectalkVoice::generate(12345, 7), expected);
    let expected = profile([1, 105, 4007, 3255, 1406, 746, 39, 45, 29, 22, 9, 88, 36, 71, 55, 33, 16, 104, 108]);
    assert_eq!(DectalkVoice::generate(1 << 63, 99), expected);
}

#[test]
fn generate_is_deterministic() {
    for (id, roll) in [(0u64, 0u64), (42, 3), (u64::MAX, 0), (987654321, u64::MAX)] {
        assert_eq!(DectalkVoice::generate(id, roll), DectalkVoice::generate(id, roll));
    }
}

#[test]
fn generated_values_stay_in_range() {
    for id in [0u64, 1, 2, 1000, u64::MAX] {
        for roll in [0u64, 1, 5, 77, u64::MAX] {
            let v = DectalkVoice::generate(id, roll);
            for p in VoiceParam::all() {
                let r = p.range();
                let x = v.value(p);
                assert!(r.min <= x && x <= r.max, "{:?} = {} for ({}, {})", p, x, id, roll);
            }
        }
    }
}

#[test]
fn roll_changes_the_voice() {
    assert_ne!(DectalkVoice::generate(555, 0), DectalkVoice::generate(555, 1));
    assert_ne!(DectalkVoice::generate(555, 2), DectalkVoice::generate(555, 4));
}

#[test]
fn sex_is_the_parity_of_the_roll() {
    assert_eq!(DectalkVoice::generate(9, 10).sx, 0);
    assert_eq!(DectalkVoice::generate(9, 11).sx, 1);
}

#[test]
fn stream_first_word_of_zero_key() {
    let mut s = KeccakStream::new(0, 0);
    assert_eq!(s.next_u64(), 0xF1258F7940E1DDE7);
    let mut t = KeccakStream::new(5, 5);
    assert_eq!(t.next_u64(), 0xF1258F7940E1DDE7);
}

#[test]
fn fold_into_range() {
    assert_eq!(u64_to_u16_loop(65, 145, 0), 65);
    assert_eq!(u64_to_u16_loop(65, 145, 80), 145);
    assert_eq!(u64_to_u16_loop(65, 145, 81), 65);
    assert_eq!(u64_to_u16_loop(0, 100, 250), 48);
    assert_eq!(u64_to_u16_loop(7, 7, u64::MAX), 7);
    assert_eq!(u64_to_u16_loop(0, 65535, u64::MAX), 65535);
}

#[test]
fn preset_ranges() {
    assert_eq!(RangeSpec::from_presets(100, 130), RangeSpec { min: 70, max: 130 });
    assert_eq!(RangeSpec::from_presets(100, 60), RangeSpec { min: 60, max: 140 });
    assert_eq!(RangeSpec::from_presets(10, 50), RangeSpec { min: 0, max: 50 });
    assert_eq!(RangeSpec::from_presets(65000, 64000), RangeSpec { min: 64000, max: 65535 });
    assert_eq!(RangeSpec::from_presets(5, 5), RangeSpec { min: 5, max: 5 });
}

#[test]
fn parameter_codes_in_order() {
    let codes: Vec<&str> = VoiceParam::all().into_iter().map(|p| p.code()).collect();
    assert_eq!(
        codes,
        vec!["sx", "hs", "f4", "f5", "b4", "b5", "br", "lx", "sm", "ri", "nf", "la", "bf", "hr", "sr", "as", "qu", "ap", "pr"]
    );
}

#[test]
fn control_sequence_of_stock_voice() {
    let expected = "[:phoneme on][:nv]
        [:dv sx 1][:dv hs 100]
        [:dv f4 3300][:dv f5 3650]
        [:dv b4 260][:dv b5 330]
        [:dv br 0][:dv lx 0]
        [:dv sm 3][:dv ri 70]
        [:dv nf 0][:dv la 0]
        [:dv bf 18][:dv hr 18]
        [:dv sr 32][:dv as 100]
        [:dv qu 40][:dv ap 112]
        [:dv pr 100]";
    assert_eq!(paul_voice().control_sequence(), expected);
}

#[test]
fn control_sequence_of_generated_voice() {
    let text = DectalkVoice::generate(0, 0).control_sequence();
    assert!(text.starts_with("[:phoneme on][:nv]\n        [:dv sx 0][:dv hs 67]\n        [:dv f4 4337][:dv f5 4113]"));
    assert!(text.ends_with("[:dv qu 12][:dv ap 104]\n        [:dv pr 135]"));
}
