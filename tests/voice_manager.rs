use dectalk_tts::voice::DectalkVoice;
use dectalk_tts::voice_manager::{RollsError, VoiceManager};

#[test]
fn default_roll_is_zero() {
    let mut m = VoiceManager::new();
    assert_eq!(m.roll(8), 0);
    assert_eq!(m.get_voice(8), DectalkVoice::generate(8, 0));
    assert_eq!(m.get_voice(8), DectalkVoice::generate(8, 0));
}

#[test]
fn setting_a_roll_regenerates() {
    let mut m = VoiceManager::new();
    let before = m.get_voice(8);
    m.set_roll(8, 3);
    assert_eq!(m.roll(8), 3);
    let after = m.get_voice(8);
    assert_eq!(after, DectalkVoice::generate(8, 3));
    assert_ne!(before, after);
    m.clear_voice(8);
    assert_eq!(m.get_voice(8), DectalkVoice::generate(8, 3));
}

#[test]
fn loads_rolls_from_json() {
    let mut m = VoiceManager::new();
    m.get_voice(5);
    assert_eq!(m.load_rolls("{\"5\": 7, \"12\": 1}"), Ok(()));
    assert_eq!(m.roll(5), 7);
    assert_eq!(m.roll(12), 1);
    assert_eq!(m.roll(13), 0);
    assert_eq!(m.get_voice(5), DectalkVoice::generate(5, 7));
}

#[test]
fn rejects_bad_json() {
    let mut m = VoiceManager::new();
    m.set_roll(4, 9);
    assert_eq!(m.load_rolls("not json"), Err(RollsError::InvalidJson));
    assert_eq!(m.load_rolls("{\"4\": -1}"), Err(RollsError::InvalidJson));
    assert_eq!(m.roll(4), 9);
}

#[test]
fn saved_rolls_load_back() {
    let mut m = VoiceManager::new();
    m.set_roll(1, 100);
    m.set_roll(u64::MAX, u64::MAX);
    let json = m.save_rolls().unwrap();
    let mut n = VoiceManager::new();
    assert_eq!(n.load_rolls(&json), Ok(()));
    assert_eq!(n.roll(1), 100);
    assert_eq!(n.roll(u64::MAX), u64::MAX);
}
