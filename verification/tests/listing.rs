//! The inbox and how it is listed.

use fake_sms_server::clock::Timestamp;
use fake_sms_server::html::{esc, row_html, rows, stats_html, ROW_TIME};
use fake_sms_server::inbox::{message_with, new_message, store, AppState, Message, MAX_KEPT};
use fake_sms_server::listing::{filtered, listing, occurs_in, RowsQuery};

fn message(to: &str, from: &str, body: &str, provider: &'static str, secs: i64) -> Message {
    Message {
        id: 7,
        to: to.to_string(),
        from: from.to_string(),
        body: body.to_string(),
        provider,
        sid: "SM0".to_string(),
        received_at: Timestamp::from_parts(secs, 0).unwrap(),
    }
}

fn tos(items: &[Message]) -> Vec<&str> {
    items.iter().map(|m| m.to.as_str()).collect()
}

fn search(state: &AppState, q: &str) -> Vec<String> {
    let q = RowsQuery { q: Some(q.to_string()), provider: None };
    filtered(state, &q).iter().map(|m| m.to.clone()).collect()
}

fn by_provider(state: &AppState, provider: &str) -> Vec<String> {
    let q = RowsQuery { q: None, provider: Some(provider.to_string()) };
    filtered(state, &q).iter().map(|m| m.to.clone()).collect()
}

#[test]
fn lists_newest_first_and_earlier_arrivals_first_among_equals() {
    let mut state = AppState::new();
    for (to, secs) in [("a", 5), ("b", 9), ("c", 5), ("d", 1), ("e", 9), ("f", 5)] {
        state.keep(message(to, "", "", "twilio", secs));
    }
    assert_eq!(tos(&listing(&state)), ["b", "e", "a", "c", "f", "d"]);
    // The inbox itself stays in the order of arrival.
    assert_eq!(tos(&state.inbox), ["a", "b", "c", "d", "e", "f"]);
}

#[test]
fn nanoseconds_decide_within_a_second() {
    let mut state = AppState::new();
    for (to, nanos) in [("a", 3), ("b", 999_999_999), ("c", 4)] {
        let mut m = message(to, "", "", "twilio", 0);
        m.received_at = Timestamp::from_parts(-1, nanos).unwrap();
        state.keep(m);
    }
    assert_eq!(tos(&listing(&state)), ["b", "c", "a"]);
}

#[test]
fn agrees_with_a_stable_sort() {
    let mut state = AppState::new();
    let mut x: u64 = 12345;
    for i in 0..500 {
        x = x.wrapping_mul(6364136223846793005).wrapping_add(1442695040888963407);
        state.keep(message(&format!("{i}"), "", "", "twilio", ((x >> 33) % 40) as i64));
    }
    let mut sorted: Vec<&Message> = state.inbox.iter().collect();
    sorted.sort_by_key(|m| std::cmp::Reverse((m.received_at.secs(), m.received_at.nanos())));
    let expected: Vec<&str> = sorted.iter().map(|m| m.to.as_str()).collect();
    assert_eq!(tos(&listing(&state)), expected);
}

#[test]
fn cap_evicts_the_oldest_arrivals() {
    let mut state = AppState::new();
    for i in 0..MAX_KEPT {
        state.keep(message(&format!("{i}"), "", "", "twilio", 0));
    }
    assert_eq!(state.inbox.len(), 1000);
    assert_eq!(state.inbox[0].to, "0");
    state.keep(message("one more", "", "", "twilio", -100));
    assert_eq!(state.inbox.len(), 1000);
    assert_eq!(state.inbox[0].to, "1");
    assert_eq!(state.inbox[999].to, "one more");
}

#[test]
fn an_overfull_inbox_is_cut_to_the_cap() {
    let mut state = AppState::new();
    for i in 0..(MAX_KEPT + 10) {
        state.inbox.push(message(&format!("{i}"), "", "", "twilio", 0));
    }
    state.keep(message("last", "", "", "twilio", 0));
    assert_eq!(state.inbox.len(), MAX_KEPT);
    assert_eq!(state.inbox[0].to, "11");
    assert_eq!(state.inbox[MAX_KEPT - 1].to, "last");
}

#[test]
fn store_keeps_what_it_gives_back() {
    let mut state = AppState::new();
    let msg = store(
        &mut state,
        "to".to_string(),
        "from".to_string(),
        "body".to_string(),
        "custom",
    );
    let kept = &state.inbox[0];
    assert_eq!(
        (kept.id, &kept.to, &kept.from, &kept.body, kept.provider, &kept.sid, kept.received_at),
        (msg.id, &msg.to, &msg.from, &msg.body, msg.provider, &msg.sid, msg.received_at)
    );
    assert_eq!((msg.to.as_str(), msg.from.as_str()), ("to", "from"));
    assert_eq!((msg.body.as_str(), msg.provider), ("body", "custom"));
}

#[test]
fn messages_have_identifiers_of_their_own() {
    let make = || new_message(String::new(), String::new(), String::new(), "twilio");
    let (a, b) = (make(), make());
    assert_ne!(a.id, b.id);
    assert_ne!(a.sid, b.sid);
    for m in [a, b] {
        assert_eq!(uuid::Uuid::from_u128(m.id).get_version_num(), 4);
        assert_eq!(m.sid.len(), 34);
        assert!(m.sid.starts_with("SM"));
        assert!(m.sid[2..].chars().all(|c| c.is_ascii_digit() || ('a'..='f').contains(&c)));
    }
}

#[test]
fn search_goes_through_to_from_and_body() {
    let mut state = AppState::new();
    state.keep(message("alpha", "x", "x", "twilio", 1));
    state.keep(message("x", "alphabet", "x", "custom", 2));
    state.keep(message("y", "x", "the alpha", "custom", 3));
    state.keep(message("z", "x", "x", "custom", 4));
    assert_eq!(search(&state, "alpha"), ["y", "x", "alpha"]);
    assert_eq!(search(&state, "the"), ["y"]);
    assert_eq!(search(&state, "phab"), ["x"]);
    assert!(search(&state, "alpha ").is_empty());
}

#[test]
fn search_ignores_case() {
    let mut state = AppState::new();
    state.keep(message("1", "x", "Your OTP is 99", "twilio", 1));
    state.keep(message("2", "x", "GRÜSSE", "twilio", 2));
    assert_eq!(search(&state, "otp"), ["1"]);
    assert_eq!(search(&state, "oTp"), ["1"]);
    assert_eq!(search(&state, "OTP"), ["1"]);
    assert_eq!(search(&state, "grüsse"), ["2"]);
    assert_eq!(search(&state, "Grü"), ["2"]);
}

#[test]
fn a_message_is_found_by_its_own_text() {
    let mut state = AppState::new();
    state.keep(message("+1 555", "ΟΔΟΣ", "Straße İ", "twilio", 1));
    for q in ["+1 555", "ΟΔΟΣ", "οδος", "Straße İ"] {
        assert_eq!(search(&state, q), ["+1 555"], "{q}");
    }
}

#[test]
fn empty_query_shows_all() {
    let mut state = AppState::new();
    state.keep(message("1", "", "", "twilio", 1));
    state.keep(message("2", "", "", "custom", 2));
    for q in [None, Some(String::new())] {
        for provider in [None, Some(String::new())] {
            let query = RowsQuery { q: q.clone(), provider };
            assert_eq!(tos(&filtered(&state, &query)), ["2", "1"]);
        }
    }
}

#[test]
fn provider_is_matched_exactly() {
    let mut state = AppState::new();
    state.keep(message("1", "", "", "twilio", 1));
    state.keep(message("2", "", "", "custom", 2));
    state.keep(message("3", "", "", "twilio", 3));
    assert_eq!(by_provider(&state, "twilio"), ["3", "1"]);
    assert_eq!(by_provider(&state, "custom"), ["2"]);
    assert!(by_provider(&state, "Twilio").is_empty());
    assert!(by_provider(&state, "twil").is_empty());
}

#[test]
fn both_filters_apply_together() {
    let mut state = AppState::new();
    state.keep(message("1", "", "hello", "twilio", 1));
    state.keep(message("2", "", "hello", "custom", 2));
    state.keep(message("3", "", "other", "custom", 3));
    let q = RowsQuery { q: Some("HELLO".to_string()), provider: Some("custom".to_string()) };
    assert_eq!(tos(&filtered(&state, &q)), ["2"]);
}

#[test]
fn occurs_in_is_literal() {
    assert!(occurs_in("", "", "", ""));
    assert!(occurs_in("b", "abc", "", ""));
    assert!(occurs_in("b", "", "abc", ""));
    assert!(occurs_in("b", "", "", "abc"));
    assert!(!occurs_in("B", "abc", "abc", "abc"));
    assert!(!occurs_in("ad", "a", "d", "abcd"));
}

#[test]
fn counts_agree_with_the_filters() {
    let mut state = AppState::new();
    for i in 0..7 {
        state.keep(message("x", "", "", if i % 3 == 0 { "twilio" } else { "custom" }, i));
    }
    let html = stats_html(&state);
    assert!(html.contains(&format!("twilio {}<", by_provider(&state, "twilio").len())));
    assert!(html.contains(&format!("custom {}<", by_provider(&state, "custom").len())));
    assert!(html.contains("<strong>7</strong> messages"));
}

#[test]
fn empty_inbox_shows_the_notice() {
    let state = AppState::new();
    let q = RowsQuery { q: Some("x".to_string()), provider: Some("twilio".to_string()) };
    assert!(rows(&state, &q).starts_with("<tr><td colspan=\"5\" class=\"empty\">"));
}

#[test]
fn rows_show_each_message_that_is_kept() {
    let mut state = AppState::new();
    state.keep(message("<1>", "a&b", "one \"two\"", "twilio", 1));
    state.keep(message("2", "b", "three", "custom", 2));
    let html = rows(&state, &RowsQuery { q: None, provider: None });
    for m in &state.inbox {
        let row = row_html(m, &m.received_at.format(ROW_TIME));
        assert!(html.contains(&row));
        for part in [&m.to, &m.from, &m.body] {
            assert!(row.contains(&esc(part)));
        }
    }
}

#[test]
fn message_with_puts_each_part_in_its_place() {
    let at = Timestamp::from_parts(5, 6).unwrap();
    let m = message_with(
        9,
        "SM1".to_string(),
        at,
        "to".to_string(),
        "from".to_string(),
        "body".to_string(),
        "custom",
    );
    assert_eq!((m.id, m.sid.as_str(), m.received_at), (9, "SM1", at));
    assert_eq!((m.to.as_str(), m.from.as_str()), ("to", "from"));
    assert_eq!((m.body.as_str(), m.provider), ("body", "custom"));
}

#[test]
fn a_new_message_is_stamped_with_the_present() {
    let before = Timestamp::now();
    let m = new_message(String::new(), String::new(), String::new(), "twilio");
    let after = Timestamp::now();
    assert!(!before.is_after(&m.received_at) && !m.received_at.is_after(&after));
}
