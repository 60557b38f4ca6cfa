use dectalk_tts::message::{
    get_requested_roll, may_play, may_speak, process_message, remove_links, remove_requested_roll,
    replace_discord_emojis,
};
use dectalk_tts::wav::WavTiming;

#[test]
fn message_is_cleaned_for_speech() {
    assert_eq!(
        process_message("  hello https://example.com/page <:wave:12345> world  "),
        "hello  wave world"
    );
    assert_eq!(process_message("\u{3000}hi\u{a0}"), "hi");
    assert_eq!(process_message("   "), "");
    assert_eq!(process_message(""), "");
}

#[test]
fn links_are_removed() {
    assert_eq!(remove_links("see http://a.b and https://c.d/e?f=g end"), "see  and  end");
    assert_eq!(remove_links("no links here"), "no links here");
}

#[test]
fn emojis_become_names() {
    assert_eq!(replace_discord_emojis("hi <:wave:123> <a:party:999>!"), "hi wave party!");
    assert_eq!(replace_discord_emojis("<:broken:>"), "<:broken:>");
}

#[test]
fn roll_requests_are_read() {
    assert_eq!(get_requested_roll("hi [:roll 42] there"), Some(42));
    assert_eq!(get_requested_roll("[:roll   7  ]"), Some(7));
    assert_eq!(get_requested_roll("[:roll3][:roll 4]"), Some(3));
    assert_eq!(get_requested_roll("[:roll]"), None);
    assert_eq!(get_requested_roll("no roll"), None);
    assert_eq!(get_requested_roll("[:roll 18446744073709551615]"), Some(u64::MAX));
    assert_eq!(get_requested_roll("[:roll 18446744073709551616]"), None);
    assert_eq!(get_requested_roll("[:roll \u{663}]"), None);
}

#[test]
fn roll_requests_are_removed() {
    assert_eq!(remove_requested_roll("hi [:roll 42] there [:roll 1]"), "hi  there ");
    assert_eq!(remove_requested_roll("[:roll x]"), "[:roll x]");
}

#[test]
fn long_messages_only_for_the_owner() {
    assert!(may_speak(false, 0));
    assert!(may_speak(false, 256));
    assert!(!may_speak(false, 257));
    assert!(may_speak(true, 10_000));
}

#[test]
fn long_speech_only_for_the_owner() {
    let fifteen = WavTiming { data_size: 15 * 88200, block_align: 2, sample_rate: 44100 };
    let longer = WavTiming { data_size: 15 * 88200 + 2, block_align: 2, sample_rate: 44100 };
    assert!(may_play(false, &fifteen));
    assert!(!may_play(false, &longer));
    assert!(may_play(true, &longer));
}
