use dectalk_tts::voice_allocator::VoiceAllocator;

#[test]
fn hands_out_voices_in_turn() {
    let mut a = VoiceAllocator::new(vec!['a', 'b', 'c']);
    assert_eq!(a.get_or_insert(10), 'a');
    assert_eq!(a.get_or_insert(20), 'b');
    assert_eq!(a.get_or_insert(30), 'c');
    assert_eq!(a.get_or_insert(40), 'a');
}

#[test]
fn known_user_keeps_voice() {
    let mut a = VoiceAllocator::new(vec!['a', 'b']);
    assert_eq!(a.get_or_insert(1), 'a');
    assert_eq!(a.get_or_insert(1), 'a');
    assert_eq!(a.get_or_insert(2), 'b');
}

#[test]
fn removal_never_rewinds() {
    let mut a = VoiceAllocator::new(vec!['x', 'y', 'z']);
    assert_eq!(a.get_or_insert(1), 'x');
    a.remove(1);
    assert_eq!(a.get_or_insert(2), 'y');
    assert_eq!(a.get_or_insert(1), 'z');
    a.remove(99);
    assert_eq!(a.get_or_insert(3), 'x');
}

#[test]
fn lists_current_users() {
    let mut a = VoiceAllocator::new(vec!['a']);
    assert!(a.get_users().is_empty());
    a.get_or_insert(5);
    a.get_or_insert(6);
    a.get_or_insert(7);
    a.remove(6);
    let mut users = a.get_users();
    users.sort();
    assert_eq!(users, vec![5, 7]);
}
