use monclub_bot::config::{
    invalid_users_message, same_identity, users_file_step, users_from_entries, Account, Config,
    Coordinate, Environment, MissingSetting, RawAccount, UsersFile, UsersStep,
};

fn text_of(value: &serde_json::Value, key: &str) -> Result<String, String> {
    match value.get(key).and_then(serde_json::Value::as_str) {
        Some(text) => Ok(text.to_string()),
        None => Err(format!("missing {key}")),
    }
}

fn parse_users_json(raw: &str, default_custom_id: &str) -> Result<Vec<Account>, String> {
    let values: Vec<serde_json::Value> =
        serde_json::from_str(raw).map_err(|e| invalid_users_message(&e.to_string()))?;
    let mut entries = vec![];
    for value in &values {
        entries.push(RawAccount {
            label: text_of(value, "label")?,
            email: text_of(value, "email")?,
            password: text_of(value, "password")?,
            custom_id: match value.get("custom_id") {
                None | Some(serde_json::Value::Null) => None,
                Some(_) => Some(text_of(value, "custom_id")?),
            },
            discord_id: value
                .get("discord_id")
                .and_then(serde_json::Value::as_u64)
                .ok_or("missing discord_id")?,
        });
    }
    Ok(users_from_entries(entries, default_custom_id))
}

fn config_with_users(users: Vec<Account>) -> Config {
    Config {
        email: "owner@example.com".to_string(),
        password: "ownerpwd".to_string(),
        custom_id: "club1".to_string(),
        base_url: "https://api.example.com".to_string(),
        latitude: None,
        longitude: None,
        retry_duration: 300,
        retry_interval: 5,
        discord_token: None,
        discord_owner_id: Some(1),
        new_sessions_channel_id: None,
        new_sessions_poll_interval: 60,
        booking_window_hours: 144,
        watch_poll_interval: 60,
        users,
    }
}

#[test]
fn parses_users_and_defaults_custom_id() {
    let raw = r#"[
            {"discord_id": 111, "label": "tom", "email": "tom@x.com", "password": "p1"},
            {"discord_id": 222, "label": "nils", "email": "nils@x.com", "password": "p2", "custom_id": "club2"}
        ]"#;

    let users = parse_users_json(raw, "club1").expect("valid JSON");

    assert_eq!(users.len(), 2);
    assert_eq!(users[0].discord_id, Some(111));
    // custom_id omitted -> falls back to the club-wide default.
    assert_eq!(users[0].custom_id, "club1");
    // custom_id present -> kept as-is.
    assert_eq!(users[1].custom_id, "club2");
}

#[test]
fn preserves_large_snowflake_ids() {
    // Discord ids exceed 2^53, so they must survive JSON parsing exactly.
    let raw = r#"[{"discord_id": 123456789012345678, "label": "t", "email": "t@x.com", "password": "p"}]"#;
    let users = parse_users_json(raw, "club1").expect("valid JSON");
    assert_eq!(users[0].discord_id, Some(123_456_789_012_345_678));
}

#[test]
fn rejects_malformed_users_json() {
    assert!(parse_users_json("not json", "club1").is_err());
}

#[test]
fn resolves_owner_and_users_by_discord_id() {
    let users = parse_users_json(
        r#"[{"discord_id": 111, "label": "tom", "email": "tom@x.com", "password": "p1"}]"#,
        "club1",
    )
    .unwrap();
    let config = config_with_users(users);

    // Owner id resolves to the primary account.
    assert_eq!(config.account_for_discord(1).unwrap().email, "owner@example.com");
    // An entry of the users file resolves to its own account.
    assert_eq!(config.account_for_discord(111).unwrap().label, "tom");
    // Unknown id resolves to nothing.
    assert!(config.account_for_discord(999).is_none());
}

#[test]
fn resolves_by_case_insensitive_label() {
    let users = parse_users_json(
        r#"[{"discord_id": 111, "label": "Tom", "email": "tom@x.com", "password": "p1"}]"#,
        "club1",
    )
    .unwrap();
    let config = config_with_users(users);

    assert_eq!(config.account_for_label("tom").unwrap().discord_id, Some(111));
    assert!(config.account_for_label("unknown").is_none());
}

#[test]
fn distinct_accounts_collapses_duplicate_identity() {
    // An entry for the owner's own email is the same identity as the primary.
    let users = parse_users_json(
        r#"[{"discord_id": 9, "label": "tom", "email": "owner@example.com", "password": "p"}]"#,
        "club1",
    )
    .unwrap();
    let config = config_with_users(users);

    // The full list keeps both; distinct collapses to the primary "me".
    assert_eq!(config.accounts().len(), 2);
    let distinct = config.distinct_accounts();
    assert_eq!(distinct.len(), 1);
    assert_eq!(distinct[0].label, "me");
}

#[test]
fn distinct_accounts_keeps_genuinely_different_users() {
    let users = parse_users_json(
        r#"[{"discord_id": 2, "label": "tom", "email": "tom@example.com", "password": "p"}]"#,
        "club1",
    )
    .unwrap();
    let config = config_with_users(users);

    assert_eq!(config.distinct_accounts().len(), 2);
}

#[test]
fn users_entry_overrides_primary_on_discord_id() {
    // An entry sharing the owner's discord id (1) must win over the primary account.
    let users = parse_users_json(
        r#"[{"discord_id": 1, "label": "owner-alt", "email": "alt@x.com", "password": "p"}]"#,
        "club1",
    )
    .unwrap();
    let config = config_with_users(users);

    let resolved = config.account_for_discord(1).unwrap();
    assert_eq!(resolved.email, "alt@x.com");
    assert_eq!(resolved.label, "owner-alt");
}

#[test]
fn users_entry_overrides_primary_on_label() {
    // An entry using the primary's "me" label must win too.
    let users = parse_users_json(
        r#"[{"discord_id": 5, "label": "me", "email": "alt@x.com", "password": "p"}]"#,
        "club1",
    )
    .unwrap();
    let config = config_with_users(users);

    assert_eq!(config.account_for_label("me").unwrap().email, "alt@x.com");
}

#[test]
fn only_the_primary_is_bookable_without_users() {
    let config = config_with_users(vec![]);
    let all = config.accounts();
    assert_eq!(all.len(), 1);
    assert_eq!(all[0].label, "me");
    assert_eq!(all[0].discord_id, Some(1));
    assert_eq!(config.distinct_accounts().len(), 1);
}

#[test]
fn identity_is_email_and_club() {
    let account = |email: &str, club: &str| Account {
        label: "x".to_string(),
        email: email.to_string(),
        password: "p".to_string(),
        custom_id: club.to_string(),
        discord_id: None,
    };
    assert!(same_identity(&account("Tom@X.com", "c"), &account("tom@x.COM", "c")));
    assert!(!same_identity(&account("tom@x.com", "c"), &account("tom@x.com", "C")));
    // Only ASCII letters are folded.
    assert!(!same_identity(&account("\u{c9}@x.com", "c"), &account("\u{e9}@x.com", "c")));
}

#[test]
fn users_file_may_be_absent_or_blank() {
    assert!(matches!(users_file_step(UsersFile::Missing), UsersStep::NoUsers));
    // A no-break space is white space as well.
    let blank = UsersFile::Contents(" \n\t\u{a0}".to_string());
    assert!(matches!(users_file_step(blank), UsersStep::NoUsers));
    match users_file_step(UsersFile::Contents(" [] ".to_string())) {
        UsersStep::Decode(text) => assert_eq!(text, " [] "),
        _ => panic!("expected the text"),
    }
    match users_file_step(UsersFile::Unreadable("denied".to_string())) {
        UsersStep::Fail(message) => assert_eq!(message, "failed to read users.json: denied"),
        _ => panic!("expected a failure"),
    }
    assert_eq!(
        invalid_users_message("EOF"),
        "users.json is not valid JSON (expected an array of user objects): EOF"
    );
}

fn environment() -> Environment {
    Environment {
        email: Some("e@x.com".to_string()),
        password: Some("secret-pw".to_string()),
        custom_id: Some("club".to_string()),
        base_url: Some("https://api".to_string()),
        latitude: None,
        longitude: None,
        retry_duration: None,
        retry_interval: None,
        discord_token: None,
        discord_owner_id: None,
        new_sessions_channel_id: None,
        new_sessions_poll_interval: None,
        booking_window_hours: None,
        watch_poll_interval: None,
    }
}

#[test]
fn settings_have_defaults() {
    let config = match Config::from_env(environment(), vec![]) {
        Ok(config) => config,
        Err(missing) => panic!("{}", missing.message()),
    };
    assert_eq!(config.retry_duration, 300);
    assert_eq!(config.retry_interval, 5);
    assert_eq!(config.new_sessions_poll_interval, 60);
    assert_eq!(config.booking_window_hours, 144);
    assert_eq!(config.watch_poll_interval, 60);
    assert_eq!(config.discord_token, None);
    assert_eq!(config.discord_owner_id, None);
    assert_eq!(config.new_sessions_channel_id, None);
}

#[test]
fn settings_are_read_from_text() {
    let mut env = environment();
    env.retry_duration = Some("10".to_string());
    env.retry_interval = Some("soon".to_string());
    env.discord_token = Some(String::new());
    env.discord_owner_id = Some("123456789012345678".to_string());
    env.new_sessions_channel_id = Some("-4".to_string());
    env.booking_window_hours = Some("-12".to_string());
    env.watch_poll_interval = Some("+7".to_string());
    let config = match Config::from_env(env, vec![]) {
        Ok(config) => config,
        Err(missing) => panic!("{}", missing.message()),
    };
    assert_eq!(config.retry_duration, 10);
    assert_eq!(config.retry_interval, 5);
    assert_eq!(config.discord_token, None);
    assert_eq!(config.discord_owner_id, Some(123_456_789_012_345_678));
    assert_eq!(config.new_sessions_channel_id, None);
    assert_eq!(config.booking_window_hours, -12);
    assert_eq!(config.watch_poll_interval, 7);
}

#[test]
fn required_settings_are_named() {
    let missing = |env: Environment| match Config::from_env(env, vec![]) {
        Ok(_) => panic!("nothing is missing"),
        Err(missing) => missing,
    };
    let mut env = environment();
    env.base_url = None;
    let m = missing(env);
    assert_eq!(m, MissingSetting::BaseUrl);
    assert_eq!(m.message(), "BASE_URL not set");
    let mut env = environment();
    env.password = None;
    assert_eq!(missing(env).message(), "PASSWORD not set");
    let mut env = environment();
    env.email = None;
    env.base_url = None;
    assert_eq!(missing(env).message(), "EMAIL not set");
    let mut env = environment();
    env.custom_id = None;
    env.email = None;
    assert_eq!(missing(env).message(), "CUSTOM_ID not set");
}

#[test]
fn diagnostics_hide_the_secrets() {
    let mut env = environment();
    env.latitude = Some(Coordinate { bits: 48.5f64.to_bits(), text: "48.5".to_string() });
    env.discord_token = Some("tok".to_string());
    let users = vec![Account {
        label: "t\"o".to_string(),
        email: "t@x.com".to_string(),
        password: "other-pw".to_string(),
        custom_id: "club".to_string(),
        discord_id: Some(7),
    }];
    let config = match Config::from_env(env, users) {
        Ok(config) => config,
        Err(missing) => panic!("{}", missing.message()),
    };
    let account = config.users[0].debug_text();
    assert_eq!(
        account,
        "Account { label: \"t\\\"o\", email: \"t@x.com\", password: \"<redacted>\", \
         custom_id: \"club\", discord_id: Some(7) }"
    );
    let text = config.debug_text();
    assert_eq!(
        text,
        format!(
            "Config {{ email: \"e@x.com\", password: \"<redacted>\", custom_id: \"club\", \
             base_url: \"https://api\", latitude: Some(48.5), longitude: None, \
             retry_duration: 300, retry_interval: 5, discord_token: Some(\"<redacted>\"), \
             discord_owner_id: None, new_sessions_channel_id: None, \
             new_sessions_poll_interval: 60, booking_window_hours: 144, \
             watch_poll_interval: 60, users: [{account}] }}"
        )
    );
    assert!(!text.contains("secret-pw") && !text.contains("other-pw") && !text.contains("tok\""));
}

#[test]
fn a_copied_configuration_holds_the_same() {
    let mut env = environment();
    env.longitude = Some(Coordinate { bits: 2.25f64.to_bits(), text: "2.25".to_string() });
    let config = match Config::from_env(env, vec![]) {
        Ok(config) => config,
        Err(missing) => panic!("{}", missing.message()),
    };
    assert_eq!(config.clone().debug_text(), config.debug_text());
}
