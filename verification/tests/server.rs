//! Requests and replies, end to end.

use fake_sms_server::api::{
    custom_receive, healthz, messages, twilio_receive, CustomBody, Reply, TwilioForm,
};
use fake_sms_server::html::{clear, rows, stats};
use fake_sms_server::inbox::{store, AppState, MAX_KEPT};
use fake_sms_server::listing::RowsQuery;
use fake_sms_server::page::index;

fn field<'a>(reply: &'a Reply, name: &str) -> Option<&'a str> {
    reply.fields.iter().find(|f| f.0 == name).map(|f| f.1.as_str())
}

fn query(q: Option<&str>, provider: Option<&str>) -> RowsQuery {
    RowsQuery { q: q.map(str::to_string), provider: provider.map(str::to_string) }
}

fn custom(to: &str, body: &str, sender: Option<&str>) -> CustomBody {
    CustomBody {
        to: to.to_string(),
        body: body.to_string(),
        sender: sender.map(str::to_string),
    }
}

fn twilio(to: &str, from: &str, body: &str) -> TwilioForm {
    TwilioForm { to: to.to_string(), from: from.to_string(), body: body.to_string() }
}

#[test]
fn twilio_shape_returns_sid_and_lands_in_inbox() {
    let mut state = AppState::new();
    let res = twilio_receive(&mut state, twilio("9876543210", "+15551234567", "hello"));
    assert_eq!(res.status, 201);
    let sid = field(&res, "sid").unwrap().to_string();
    assert!(sid.starts_with("SM"), "twilio-style sid, got {sid}");

    let inbox = messages(&state);
    assert_eq!(inbox.total, 1);
    assert_eq!(inbox.data[0].to, "9876543210");
    assert_eq!(inbox.data[0].provider, "twilio");
}

#[test]
fn custom_shape_validates_and_stores() {
    let mut state = AppState::new();
    let bad = custom_receive(&mut state, custom("", "x", None));
    assert_eq!(bad.status, 400);

    let ok = custom_receive(&mut state, custom("9000000001", "hi", Some("1KM")));
    assert_eq!(ok.status, 201);
    let inbox = messages(&state);
    assert_eq!(inbox.data[0].provider, "custom");
    assert_eq!(inbox.data[0].from, "1KM");
}

#[test]
fn inbox_caps_at_limit_newest_first() {
    let mut state = AppState::new();
    for i in 0..(MAX_KEPT + 5) {
        store(&mut state, format!("{i}"), "s".to_string(), "b".to_string(), "twilio");
    }
    let inbox = messages(&state);
    assert_eq!(inbox.total, MAX_KEPT);
    assert_eq!(inbox.data[0].to, format!("{}", MAX_KEPT + 4));
}

#[test]
fn healthz_and_index_serve() {
    assert!(healthz());
    let idx = index();
    assert!(idx.contains("fake-sms-server inbox"));
    assert!(idx.contains("htmx.min.js"));
}

#[test]
fn rows_filter_search_and_clear() {
    let mut state = AppState::new();
    // Two custom messages...
    for (to, body) in [("111", "otp 123456"), ("222", "hello there")] {
        let res = custom_receive(&mut state, custom(to, body, Some("1KM")));
        assert_eq!(res.status, 201);
    }
    // ... and one in Twilio's shape.
    let res = twilio_receive(&mut state, twilio("333", "+1555", "twilio hello"));
    assert_eq!(res.status, 201);

    let html = rows(&state, &query(None, None));
    assert!(html.contains("111") && html.contains("twilio hello"));

    // The filter form always submits both fields; empty means all.
    let all = rows(&state, &query(Some(""), Some("")));
    assert!(all.contains("twilio hello"));

    // Provider filter isolates.
    let html = rows(&state, &query(None, Some("twilio")));
    assert!(html.contains("twilio hello"));
    assert!(!html.contains(">111<"));

    // Substring search across to/from/body.
    let q = rows(&state, &query(Some("hello there"), None));
    assert!(q.contains("222"));
    let none = rows(&state, &query(Some("zzz-no-match"), None));
    assert!(none.contains("No messages yet"));

    // Stats count both providers.
    assert!(stats(&state).contains("twilio 1"));

    // Bodies are HTML-escaped in the UI (XSS-safe).
    custom_receive(&mut state, custom("444", "<script>alert(1)</script>", None));
    let html = rows(&state, &query(Some("alert"), None));
    assert!(html.contains("&lt;script&gt;"));
    assert!(!html.contains("<script>alert"));

    // Clear wipes everything.
    let cleared = clear(&mut state);
    assert!(cleared.contains("No messages yet"));
    assert_eq!(messages(&state).total, 0);
}

#[test]
fn twilio_reply_echoes_the_message() {
    let mut state = AppState::new();
    let res = twilio_receive(&mut state, twilio("1", "2", "3"));
    let names: Vec<&str> = res.fields.iter().map(|f| f.0).collect();
    assert_eq!(names, ["sid", "status", "to", "from"]);
    assert_eq!(field(&res, "sid"), Some(state.inbox[0].sid.as_str()));
    assert_eq!(field(&res, "status"), Some("queued"));
    assert_eq!(field(&res, "to"), Some("1"));
    assert_eq!(field(&res, "from"), Some("2"));
    assert_eq!(state.inbox[0].body, "3");
}

#[test]
fn twilio_shape_accepts_blank_fields() {
    let mut state = AppState::new();
    assert_eq!(twilio_receive(&mut state, twilio("", "", "")).status, 201);
    assert_eq!(state.inbox.len(), 1);
}

#[test]
fn custom_reply_has_sid_and_status() {
    let mut state = AppState::new();
    let res = custom_receive(&mut state, custom(" 1 ", " b ", None));
    let names: Vec<&str> = res.fields.iter().map(|f| f.0).collect();
    assert_eq!(names, ["sid", "status"]);
    assert_eq!(field(&res, "sid"), Some(state.inbox[0].sid.as_str()));
    assert_eq!(field(&res, "status"), Some("queued"));
    // Stored as sent, and from the default sender.
    assert_eq!(state.inbox[0].to, " 1 ");
    assert_eq!(state.inbox[0].body, " b ");
    assert_eq!(state.inbox[0].from, "1KM");
}

#[test]
fn custom_sender_is_kept_as_given() {
    let mut state = AppState::new();
    custom_receive(&mut state, custom("1", "b", Some("")));
    custom_receive(&mut state, custom("1", "b", Some("ACME")));
    assert_eq!(state.inbox[0].from, "");
    assert_eq!(state.inbox[1].from, "ACME");
}

#[test]
fn refused_message_leaves_the_inbox_alone() {
    let mut state = AppState::new();
    for (to, body) in [("", "x"), ("x", ""), ("", ""), (" \t\n", "x"), ("x", "\u{3000}\u{a0}")] {
        let res = custom_receive(&mut state, custom(to, body, Some("s")));
        assert_eq!(res.status, 400);
        assert_eq!(res.fields.len(), 1);
        assert_eq!(field(&res, "error"), Some("to and body are required"));
        assert!(state.inbox.is_empty());
    }
}

#[test]
fn received_message_is_listed() {
    let mut state = AppState::new();
    custom_receive(&mut state, custom("1", "first", None));
    twilio_receive(&mut state, twilio("2", "3", "second"));
    let listed = messages(&state);
    assert_eq!(listed.total, 2);
    assert_eq!(listed.data.len(), 2);
    for m in &state.inbox {
        assert!(listed.data.iter().any(|l| l.id == m.id && l.body == m.body));
    }
}

#[test]
fn received_messages_have_known_providers_and_fixed_markup() {
    let marks = |s: &str| -> String {
        s.chars().filter(|c| *c == '<' || *c == '>' || *c == '"').collect()
    };
    let mut state = AppState::new();
    twilio_receive(&mut state, twilio("1", "2", "3"));
    let row = marks(&rows(&state, &query(None, None)));
    for text in ["<b>", "\">", "</td>", "& <i>"] {
        twilio_receive(&mut state, twilio(text, text, text));
        custom_receive(&mut state, custom(text, text, Some(text)));
    }
    assert!(state.inbox.iter().all(|m| m.provider == "twilio" || m.provider == "custom"));
    assert_eq!(marks(&rows(&state, &query(None, None))), row.repeat(9));
    assert_eq!(marks(&rows(&state, &query(None, Some("custom")))), row.repeat(4));
    assert!(stats(&state).contains("twilio 5") && stats(&state).contains("custom 4"));
}
