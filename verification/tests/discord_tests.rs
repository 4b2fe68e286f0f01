use monclub_bot::config::{Account, Config};
use monclub_bot::discord::{
    is_everyone, is_owner, parse_mention, resolve_targets, unauthorized_reply,
};
use monclub_bot::number::decimal_text;

#[test]
fn parses_plain_and_nickname_mentions() {
    assert_eq!(parse_mention("<@123456789012345678>"), Some(123_456_789_012_345_678));
    assert_eq!(parse_mention("<@!123>"), Some(123));
}

#[test]
fn rejects_non_mentions() {
    assert_eq!(parse_mention("tom"), None);
    assert_eq!(parse_mention("<@abc>"), None);
    assert_eq!(parse_mention("123"), None); // raw ids are handled separately
}

#[test]
fn recognises_everyone_tokens() {
    assert!(is_everyone("@everyone"));
    assert!(is_everyone("everyone"));
    assert!(is_everyone("all"));
    assert!(is_everyone("ALL"));
    assert!(!is_everyone("tom"));
    assert!(!is_everyone("@tom"));
}

#[test]
fn mentions_are_exact() {
    assert_eq!(parse_mention("<@>"), None);
    assert_eq!(parse_mention("<@"), None);
    assert_eq!(parse_mention("<@!!1>"), None);
    assert_eq!(parse_mention("<@1> "), None);
    assert_eq!(parse_mention("<@18446744073709551616>"), None);
    for id in [0, 7, 18446744073709551615] {
        assert_eq!(parse_mention(&format!("<@{}>", decimal_text(id))), Some(id));
    }
    assert!(is_everyone("@@Everyone"));
}

#[test]
fn only_the_owner_commands() {
    assert!(is_owner(None, 5));
    assert!(is_owner(Some(5), 5));
    assert!(!is_owner(Some(5), 6));
    assert_eq!(unauthorized_reply(), "Unauthorized.");
}

fn account(label: &str, email: &str, discord_id: Option<u64>) -> Account {
    Account {
        label: label.to_string(),
        email: email.to_string(),
        password: "p".to_string(),
        custom_id: "club1".to_string(),
        discord_id,
    }
}

fn config() -> Config {
    Config {
        email: "owner@x.com".to_string(),
        password: "p".to_string(),
        custom_id: "club1".to_string(),
        base_url: "https://example.invalid".to_string(),
        latitude: None,
        longitude: None,
        retry_duration: 1,
        retry_interval: 1,
        discord_token: None,
        discord_owner_id: Some(1),
        new_sessions_channel_id: None,
        new_sessions_poll_interval: 60,
        booking_window_hours: 144,
        watch_poll_interval: 60,
        users: vec![
            account("tom", "tom@x.com", Some(22)),
            account("alias", "Tom@X.com", Some(33)),
            account("44", "nils@x.com", Some(55)),
        ],
    }
}

fn labels(users: Option<&str>, caller: u64) -> Vec<String> {
    match resolve_targets(&config(), caller, users) {
        Ok(list) => list.into_iter().map(|a| a.label).collect(),
        Err(e) => panic!("{e}"),
    }
}

#[test]
fn a_command_is_for_its_caller_by_default() {
    assert_eq!(labels(None, 22), ["tom"]);
    assert_eq!(labels(Some(" \u{2003}\n"), 22), ["tom"]);
    // A caller who is not linked books as the primary account.
    assert_eq!(labels(None, 99), ["me"]);
    assert_eq!(labels(None, 1), ["me"]);
}

#[test]
fn people_are_named_by_mention_id_or_label() {
    assert_eq!(labels(Some("<@22> 55 ME"), 1), ["tom", "44", "me"]);
    // An id that is linked to nobody may still be a label.
    assert_eq!(labels(Some("44"), 1), ["44"]);
    // The same member twice is one target.
    assert_eq!(labels(Some("tom <@!33>\ttom"), 1), ["tom"]);
}

#[test]
fn everyone_is_every_member_once() {
    assert_eq!(labels(Some("ghost @everyone"), 1), ["me", "tom", "44"]);
}

#[test]
fn unknown_people_are_named() {
    match resolve_targets(&config(), 1, Some("tom ghost <@9> 10")) {
        Err(e) => assert_eq!(e, "No linked MonClub account for: ghost, <@9>, 10"),
        Ok(_) => panic!("resolved"),
    }
}
