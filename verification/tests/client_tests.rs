use monclub_bot::booking::{
    book_outcome, interpret_book_response, reply_step, retry_step, BookReply, ReplyStep,
    RetryPolicy, RetryStep,
};
use monclub_bot::client::{
    default_headers, AuthResponse, AuthUser, BookError, Booking, Method, MissingToken,
    MonClubClient, Request, Session,
};
use monclub_bot::config::{Account, Config, Coordinate};
use monclub_bot::json::{array_items, session_payload, Json};
use monclub_bot::targets::{choice_text, confirm_selection, TargetError, Targets};

fn text(value: &str) -> Json {
    Json::Text(value.to_string())
}

fn object(entries: Vec<(&str, Json)>) -> Json {
    Json::Object(entries.into_iter().map(|(k, v)| (k.to_string(), v)).collect())
}

#[test]
fn accepts_booking_record_with_id() {
    // The captured success shape: a booking record with `_id`, no `status`.
    let body = object(vec![("_id", text("deadbeef")), ("isPresent", text("yes"))]);
    assert!(interpret_book_response(body).is_ok());
}

#[test]
fn accepts_status_success() {
    // The observed success shape from the live API: `status: "success"`, with no `_id`.
    let body = object(vec![("status", text("success")), ("message", text("success"))]);
    assert!(interpret_book_response(body).is_ok());
}

#[test]
fn accepts_body_without_status() {
    // No explicit failure status -> accepted rather than dropped.
    let body = object(vec![("foo", text("bar"))]);
    assert!(interpret_book_response(body).is_ok());
}

#[test]
fn rejects_no_credits_despite_200() {
    // The member has hit their reservation limit.
    let body = object(vec![
        ("status", text("noCredits")),
        (
            "message",
            text("L\u{2019}adh\u{e9}rent a atteint la limite de ses r\u{e9}servations autoris\u{e9}es."),
        ),
    ]);
    match interpret_book_response(body) {
        Err(BookError::Rejected { status, message }) => {
            assert_eq!(status, "noCredits");
            assert!(message.contains("limite"));
        }
        other => panic!("expected Rejected, got {other:?}"),
    }
}

#[test]
fn a_status_is_read_ignoring_case_and_stands_in_for_the_message() {
    assert!(interpret_book_response(object(vec![("status", text("SUCCESS"))])).is_ok());
    // A status that is no text is none.
    assert!(interpret_book_response(object(vec![("status", Json::Unsigned(7))])).is_ok());
    assert!(interpret_book_response(Json::Null).is_ok());
    match interpret_book_response(object(vec![("status", text("full"))])) {
        Err(BookError::Rejected { status, message }) => {
            assert_eq!(status, "full");
            assert_eq!(message, "full");
        }
        other => panic!("expected Rejected, got {other:?}"),
    }
}

#[test]
fn replies_are_told_apart_by_status() {
    assert_eq!(reply_step(409), ReplyStep::ReadConflict);
    assert_eq!(reply_step(400), ReplyStep::FailWithStatus);
    assert_eq!(reply_step(500), ReplyStep::FailWithStatus);
    assert_eq!(reply_step(200), ReplyStep::ReadBody);
    assert_eq!(reply_step(302), ReplyStep::ReadBody);
    match book_outcome(BookReply::Conflict(Some("later".to_string()))) {
        Err(e) => assert_eq!(e.to_text(), "slot not open yet: later"),
        Ok(_) => panic!("expected an error"),
    }
    match book_outcome(BookReply::Conflict(None)) {
        Err(BookError::SlotNotOpen(body)) => assert_eq!(body, ""),
        _ => panic!("expected an error"),
    }
    match book_outcome(BookReply::Failed("timed out".to_string())) {
        Err(e) => assert_eq!(e.to_text(), "timed out"),
        Ok(_) => panic!("expected an error"),
    }
    assert!(book_outcome(BookReply::Answered(Json::Null)).is_ok());
}

#[test]
fn only_a_closed_slot_is_retried() {
    let policy = RetryPolicy { duration: 10, interval: 3 };
    match retry_step(&Ok(Json::Null), 0, policy) {
        RetryStep::Done(m) => assert_eq!(m, "Booking confirmed!"),
        other => panic!("{other:?}"),
    }
    let closed = Err(BookError::SlotNotOpen("x".to_string()));
    match retry_step(&closed, 9, policy) {
        RetryStep::Retry { notice, wait } => {
            assert_eq!(notice, "Slot not open yet. Retrying in 3s...");
            assert_eq!(wait, 3);
        }
        other => panic!("{other:?}"),
    }
    match retry_step(&closed, 10, policy) {
        RetryStep::GiveUp(m) => assert_eq!(m, "Booking window expired."),
        other => panic!("{other:?}"),
    }
    let rejected =
        Err(BookError::Rejected { status: "noCredits".to_string(), message: "none".to_string() });
    match retry_step(&rejected, 0, policy) {
        RetryStep::GiveUp(m) => {
            assert_eq!(m, "Booking failed: booking rejected (noCredits): none");
        }
        other => panic!("{other:?}"),
    }
}

fn account(label: &str, email: &str) -> Account {
    Account {
        label: label.to_string(),
        email: email.to_string(),
        password: "p".to_string(),
        custom_id: "club1".to_string(),
        discord_id: None,
    }
}

fn client_with(users: Vec<Account>) -> MonClubClient {
    let config = Config {
        email: "owner@x.com".to_string(),
        password: "p".to_string(),
        custom_id: "club1".to_string(),
        base_url: "https://example.invalid".to_string(),
        latitude: None,
        longitude: None,
        retry_duration: 1,
        retry_interval: 1,
        discord_token: None,
        discord_owner_id: Some(1),
        new_sessions_channel_id: None,
        new_sessions_poll_interval: 60,
        booking_window_hours: 144,
        watch_poll_interval: 60,
        users,
    };
    MonClubClient::new(config)
}

fn chosen(targets: Result<Targets, TargetError>) -> Vec<Account> {
    match targets {
        Ok(Targets::Chosen(accounts)) => accounts,
        Ok(Targets::Ask { .. }) => panic!("prompted"),
        Err(e) => panic!("{}", e.to_text()),
    }
}

#[test]
fn resolve_targets_for_flag_resolves_labels() {
    let client = client_with(vec![account("tom", "tom@x.com")]);
    let targets = chosen(client.resolve_targets(Some("tom"), "x"));
    assert_eq!(targets.len(), 1);
    assert_eq!(targets[0].label, "tom");
}

#[test]
fn resolve_targets_for_flag_multiple_and_dedup() {
    let client = client_with(vec![account("tom", "tom@x.com")]);
    // "me" is the primary label; the repeated "tom" is de-duplicated.
    let targets = chosen(client.resolve_targets(Some("me, tom, tom"), "x"));
    assert_eq!(targets.len(), 2);
    assert_eq!(targets[0].label, "me");
    assert_eq!(targets[1].label, "tom");
}

#[test]
fn resolve_targets_for_flag_unknown_label_errors() {
    let client = client_with(vec![account("tom", "tom@x.com")]);
    assert!(client.resolve_targets(Some("ghost"), "x").is_err());
}

#[test]
fn resolve_targets_single_account_skips_prompt() {
    // No extra users and no flag -> primary account, without prompting.
    let client = client_with(vec![]);
    let targets = chosen(client.resolve_targets(None, "x"));
    assert_eq!(targets.len(), 1);
    assert_eq!(targets[0].label, "me");
}

#[test]
fn resolve_targets_duplicate_self_entry_skips_prompt() {
    // An entry that is really the primary account (same email) collapses to one identity.
    let client = client_with(vec![account("tom", "owner@x.com")]);
    let targets = chosen(client.resolve_targets(None, "x"));
    assert_eq!(targets.len(), 1);
    assert_eq!(targets[0].label, "me");
}

#[test]
fn resolve_targets_for_flag_collapses_same_identity() {
    // "me" and an alias for the same email -> a single target.
    let client = client_with(vec![account("tom", "owner@x.com")]);
    let targets = chosen(client.resolve_targets(Some("me,tom"), "x"));
    assert_eq!(targets.len(), 1);
}

#[test]
fn target_errors_have_messages() {
    let client = client_with(vec![account("tom", "tom@x.com")]);
    match client.resolve_targets(Some("tom, ghost, wraith"), "x") {
        Err(e) => assert_eq!(
            e.to_text(),
            "Unknown --for label 'ghost' (not in users.json or the primary account)"
        ),
        Ok(_) => panic!("resolved"),
    }
    match client.resolve_targets(Some(" , ,"), "x") {
        Err(e) => assert_eq!(e.to_text(), "--for was provided but empty"),
        Ok(_) => panic!("resolved"),
    }
    match confirm_selection(vec![]) {
        Err(e) => assert_eq!(e.to_text(), "No account selected."),
        Ok(_) => panic!("resolved"),
    }
    assert!(confirm_selection(vec![account("tom", "tom@x.com")]).is_ok());
}

#[test]
fn several_members_are_asked_for_with_the_primary_preselected() {
    let client = client_with(vec![account("tom", "tom@x.com")]);
    match client.resolve_targets(None, "Book for whom?") {
        Ok(Targets::Ask { prompt, choices, preselected }) => {
            assert_eq!(prompt, "Book for whom?");
            assert_eq!(choices.len(), 2);
            assert_eq!(preselected, 0);
            assert_eq!(choice_text(&choices[0]), "me (owner@x.com)");
            assert_eq!(choice_text(&choices[1]), "tom (tom@x.com)");
        }
        _ => panic!("not asked"),
    }
}

fn entry<'a>(body: &'a Option<Json>, key: &str) -> &'a Json {
    match body {
        Some(Json::Object(entries)) => {
            &entries.iter().find(|(k, _)| k == key).expect("a member").1
        }
        _ => panic!("no object"),
    }
}

fn shown(json: &Json) -> String {
    format!("{json:?}")
}

fn signed_in() -> MonClubClient {
    let mut client = client_with(vec![]);
    let response = AuthResponse {
        token: Some("jwt".to_string()),
        user_id: None,
        user: Some(AuthUser { id: "u1".to_string() }),
    };
    assert!(client.authenticate(response).is_ok());
    client
}

#[test]
fn authentication_takes_two_requests() {
    let client = client_with(vec![]);
    let probe = client.email_probe_request();
    assert_eq!(probe.method, Method::Post);
    assert_eq!(probe.url, "https://example.invalid/users/custom/authenticate/email/v2");
    assert_eq!(probe.query, vec![("withCoachAuthentication".to_string(), "true".to_string())]);
    assert_eq!(probe.authorization, None);
    assert_eq!(shown(entry(&probe.body, "email")), shown(&text("owner@x.com")));
    let request = client.authenticate_request();
    assert_eq!(request.url, "https://example.invalid/users/custom/authenticate/v2");
    assert_eq!(
        shown(entry(&request.body, "credentials")),
        shown(&object(vec![("email", text("owner@x.com")), ("password", text("p"))]))
    );
    assert_eq!(shown(entry(&request.body, "customId")), shown(&text("club1")));
    assert_eq!(shown(entry(&request.body, "coachAuthentication")), shown(&Json::Bool(false)));
    assert_eq!(
        shown(entry(&request.body, "deviceInfo")),
        shown(&object(vec![
            ("os", text("Android 14")),
            ("model", text("Phone (2)")),
            ("brand", text("Nothing")),
            ("version", text("3.6.0")),
        ]))
    );
}

#[test]
fn authentication_needs_a_token() {
    let mut client = client_with(vec![]);
    let response = AuthResponse {
        token: Some(String::new()),
        user_id: Some("direct".to_string()),
        user: Some(AuthUser { id: "nested".to_string() }),
    };
    assert_eq!(response.resolve_user_id(), Some("direct"));
    assert_eq!(client.authenticate(response), Err(MissingToken));
    assert_eq!(MissingToken.message(), "auth succeeded but response contained no token");
    assert_eq!(
        client.debug_text(),
        "MonClubClient { account: \"me\", user_id: Some(\"direct\"), token: None, .. }"
    );
    assert_eq!(
        signed_in().debug_text(),
        "MonClubClient { account: \"me\", user_id: Some(\"u1\"), token: Some(\"<redacted>\"), .. }"
    );
}

#[test]
fn listings_carry_the_token() {
    let client = signed_in();
    let request = client.list_bookings();
    assert_eq!(request.method, Method::Get);
    assert_eq!(request.url, "https://example.invalid/bookings/user/u1");
    assert_eq!(
        request.query,
        vec![
            ("category".to_string(), "ondemand".to_string()),
            ("temporality".to_string(), "fromToday".to_string()),
        ]
    );
    assert_eq!(request.authorization.as_deref(), Some("jwt"));
    assert!(request.body.is_none());
    assert_eq!(client.list_previous_bookings().query[1].1, "beforeToday");
    let sessions = client.list_sessions();
    assert_eq!(sessions.url, "https://example.invalid/nearfilters/favorite/myclub");
    assert_eq!(sessions.query[0], ("customId".to_string(), "club1".to_string()));
    assert_eq!(sessions.query[1], ("userId".to_string(), "u1".to_string()));
    assert_eq!(shown(entry(&sessions.body, "coordinates")), shown(&Json::Null));
    // Before authentication there is neither a token nor a user.
    let early = client_with(vec![]).list_bookings();
    assert_eq!(early.url, "https://example.invalid/bookings/user/");
    assert_eq!(early.authorization.as_deref(), Some(""));
}

#[test]
fn a_position_needs_both_coordinates() {
    let located = |latitude: Option<Coordinate>| {
        let mut config = client_with(vec![]).config().clone();
        config.longitude = Some(Coordinate { bits: 2.5f64.to_bits(), text: "2.5".to_string() });
        config.latitude = latitude;
        MonClubClient::new(config).list_sessions()
    };
    let north = Coordinate { bits: 48.5f64.to_bits(), text: "48.5".to_string() };
    let both: Request = located(Some(north));
    let position = Json::Array(vec![
        Json::Fraction(2.5f64.to_bits()),
        Json::Fraction(48.5f64.to_bits()),
    ]);
    assert_eq!(shown(entry(&both.body, "coordinates")), shown(&position));
    match entry(&both.body, "filters") {
        Json::Object(filters) => {
            assert_eq!(filters.len(), 12);
            assert_eq!(shown(&filters[0].1), shown(&text("myclub")));
            assert_eq!(shown(&filters[1].1), shown(&position));
        }
        _ => panic!("no filters"),
    }
    let one = located(None);
    assert_eq!(shown(entry(&one.body, "coordinates")), shown(&Json::Null));
}

#[test]
fn booking_and_cancelling_differ_in_presence() {
    let client = signed_in();
    let book = client.book_session(&Session::from_id("s1".to_string()));
    assert_eq!(book.url, "https://example.invalid/sessions/book/licenseeFromClub");
    assert_eq!(shown(entry(&book.body, "sessionId")), shown(&text("s1")));
    assert_eq!(shown(entry(&book.body, "customId")), shown(&text("club1")));
    assert_eq!(
        shown(entry(&book.body, "participant")),
        shown(&object(vec![
            ("userId", text("u1")),
            ("isPresent", text("yes")),
            ("coordinates", Json::Null),
        ]))
    );
    let booking =
        Booking { id: "b1".to_string(), session_id: "s1".to_string(), session: vec![] };
    let cancel = client.cancel_booking(&booking);
    assert_eq!(cancel.url, book.url);
    assert_eq!(
        shown(entry(&cancel.body, "participant")),
        shown(&object(vec![
            ("userId", text("u1")),
            ("isPresent", text("no")),
            ("coordinates", Json::Null),
            ("bookingId", text("b1")),
        ]))
    );
    let detail = client.get_session("s1");
    assert_eq!(detail.url, "https://example.invalid/sessions/withuser");
    assert_eq!(shown(entry(&detail.body, "userId")), shown(&text("u1")));
    // Before authentication the user is null.
    let early = client_with(vec![]).get_session("s1");
    assert_eq!(shown(entry(&early.body, "userId")), shown(&Json::Null));
}

#[test]
fn a_booking_is_cancelled_by_its_session() {
    let client = signed_in();
    let booking = |id: &str, of: &str| Booking {
        id: id.to_string(),
        session_id: of.to_string(),
        session: vec![],
    };
    let list = vec![booking("b1", "s1"), booking("b2", "s2"), booking("b3", "s2")];
    match client.cancel_session_booking(list, "s2") {
        Some((id, request)) => {
            assert_eq!(id, "b2");
            assert_eq!(shown(entry(&request.body, "sessionId")), shown(&text("s2")));
        }
        None => panic!("not found"),
    }
    assert!(client.cancel_session_booking(vec![booking("b1", "s1")], "s2").is_none());
}

#[test]
fn a_client_acts_for_its_own_member() {
    let client = client_with(vec![]);
    assert_eq!(client.account_label(), "me");
    assert!(client.acts_for(&account("other", "OWNER@x.com")));
    assert!(!client.acts_for(&account("tom", "tom@x.com")));
    let other = client.client_for(&account("tom", "tom@x.com"));
    assert_eq!(other.account_label(), "tom");
    assert_eq!(other.config().base_url, "https://example.invalid");
    assert_eq!(default_headers().len(), 4);
}

#[test]
fn answers_are_unwrapped() {
    assert_eq!(array_items(Json::Array(vec![Json::Null, Json::Bool(true)])).len(), 2);
    assert_eq!(array_items(object(vec![])).len(), 0);
    let inner = object(vec![("_id", text("s1"))]);
    let wrapped = object(vec![("session", object(vec![("_id", text("s1"))]))]);
    assert_eq!(shown(&session_payload(wrapped)), shown(&inner));
    let bare = object(vec![("_id", text("s1"))]);
    assert_eq!(shown(&session_payload(bare)), shown(&inner));
}
