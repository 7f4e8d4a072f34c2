//! Text, HTML, identifiers, moments and settings on given values.

use fake_sms_server::clock::{Timestamp, MAX_SECS, MIN_SECS};
use fake_sms_server::html::{
    esc, row_html, rows_html, short_body, stats_html, NO_ROWS, ROW_TIME, SHORT_BODY_MAX,
};
use fake_sms_server::ident::{new_sid, sid_of};
use fake_sms_server::inbox::{AppState, Message};
use fake_sms_server::settings::listen_addr;
use fake_sms_server::text::{decimal_text, hex_char, is_blank};

fn message(to: &str, body: &str, provider: &'static str) -> Message {
    Message {
        id: 0xa1a2a3a4b1b2c1c2d1d2d3d4d5d6d7d8,
        to: to.to_string(),
        from: "F&F".to_string(),
        body: body.to_string(),
        provider,
        sid: "SM12".to_string(),
        received_at: Timestamp::from_parts(1431648059, 5).unwrap(),
    }
}

#[test]
fn escapes_each_special_character() {
    assert_eq!(esc("&"), "&amp;");
    assert_eq!(esc("<"), "&lt;");
    assert_eq!(esc(">"), "&gt;");
    assert_eq!(esc("\""), "&quot;");
    assert_eq!(esc("'"), "'");
    assert_eq!(esc(""), "");
    assert_eq!(esc("&lt;"), "&amp;lt;");
    assert_eq!(esc("a<b> \"é\" & 😀"), "a&lt;b&gt; &quot;é&quot; &amp; 😀");
}

#[test]
fn escaping_matches_replacing_one_by_one() {
    for s in ["", "&&<<>>\"\"", "plain", "&amp;&lt;", "x\"y<z>&", "ünï<code>"] {
        let replaced = s
            .replace('&', "&amp;")
            .replace('<', "&lt;")
            .replace('>', "&gt;")
            .replace('"', "&quot;");
        assert_eq!(esc(s), replaced);
    }
}

#[test]
fn escaping_keeps_texts_apart() {
    let texts = ["&", "&amp;", "<", "&lt;", "\"", "&quot;", "a", "", "&amp;amp;"];
    for a in texts {
        for b in texts {
            assert_eq!(esc(a) == esc(b), a == b, "{a} {b}");
        }
        assert!(!esc(a).contains(['<', '>', '"']));
    }
}

#[test]
fn short_body_cuts_after_the_limit() {
    assert_eq!(SHORT_BODY_MAX, 90);
    assert_eq!(short_body(""), "");
    let exact = "é".repeat(90);
    assert_eq!(short_body(&exact), exact);
    assert_eq!(short_body(&format!("{exact}x")), format!("{exact}…"));
    assert_eq!(short_body(&"a".repeat(500)), format!("{}…", "a".repeat(90)));
}

#[test]
fn row_shows_the_message() {
    let expected = concat_all(&[
        "<tr><td class=\"mono\">&lt;9&gt;</td><td class=\"mono\">F&amp;F</td>",
        "<td>&quot;hi&quot;<details data-sid=\"SM12\"><summary>full</summary>",
        "<div class=\"full\">&quot;hi&quot;</div>",
        "<div class=\"meta\">sid: SM12<br>id: a1a2a3a4-b1b2-c1c2-d1d2-d3d4d5d6d7d8</div>",
        "</details></td><td><span class=\"badge custom\">custom</span></td>",
        "<td class=\"mono at\">15 May 00:00:59</td></tr>",
    ]);
    let m = message("<9>", "\"hi\"", "custom");
    assert_eq!(row_html(&m, "15 May 00:00:59"), expected);
    assert_eq!(rows_html(&[m]), expected);
}

fn concat_all(parts: &[&str]) -> String {
    parts.concat()
}

#[test]
fn long_bodies_are_shortened_and_shown_in_full() {
    let body = "<".repeat(91);
    let html = rows_html(&[message("1", &body, "twilio")]);
    assert!(html.contains(&format!("<td>{}…<details", "&lt;".repeat(90))));
    assert!(html.contains(&format!("<div class=\"full\">{}</div>", "&lt;".repeat(91))));
}

#[test]
fn rows_follow_one_another() {
    let a = message("1", "one", "twilio");
    let b = message("2", "two", "custom");
    let both = rows_html(&[a.clone(), b.clone()]);
    assert_eq!(both, rows_html(&[a]) + &rows_html(&[b]));
}

#[test]
fn no_text_changes_the_markup() {
    let marks = |s: &str| -> String {
        s.chars().filter(|c| *c == '<' || *c == '>' || *c == '"').collect()
    };
    let plain = marks(&rows_html(&[message("", "", "twilio")]));
    for text in ["<b>", "\"><script>alert(1)</script>", "</td></tr>", "&<>\""] {
        let html = rows_html(&[message(text, text, "custom"), message(text, text, "twilio")]);
        assert_eq!(marks(&html), format!("{plain}{plain}"));
    }
}

#[test]
fn no_rows_shows_the_notice() {
    assert_eq!(rows_html(&[]), NO_ROWS);
    assert_eq!(
        NO_ROWS,
        "<tr><td colspan=\"5\" class=\"empty\">No messages yet — request an OTP from the 1KM server and it lands here.</td></tr>"
    );
}

#[test]
fn stats_count_and_inflect() {
    let mut state = AppState::new();
    assert_eq!(
        stats_html(&state),
        "<strong>0</strong> messages · <span class=\"badge twilio\">twilio 0</span> <span class=\"badge custom\">custom 0</span>"
    );
    state.keep(message("1", "b", "twilio"));
    assert_eq!(
        stats_html(&state),
        "<strong>1</strong> message · <span class=\"badge twilio\">twilio 1</span> <span class=\"badge custom\">custom 0</span>"
    );
    state.keep(message("1", "b", "other"));
    assert_eq!(
        stats_html(&state),
        "<strong>2</strong> messages · <span class=\"badge twilio\">twilio 1</span> <span class=\"badge custom\">custom 1</span>"
    );
}

#[test]
fn blank_is_what_trims_to_nothing() {
    for code in 0..=0x10ffffu32 {
        if let Some(c) = char::from_u32(code) {
            let s = c.to_string();
            assert_eq!(is_blank(&s), s.trim().is_empty(), "{code:x}");
        }
    }
    assert!(is_blank(""));
    assert!(is_blank(" \t\r\n\u{a0}\u{3000}"));
    assert!(!is_blank("  x  "));
    assert!(!is_blank("\u{200b}"));
}

#[test]
fn digits_and_decimals() {
    let hex: String = (0..16).map(hex_char).collect();
    assert_eq!(hex, "0123456789abcdef");
    for n in [0usize, 9, 10, 99, 100, 1000, 8080, usize::MAX] {
        assert_eq!(decimal_text(n), n.to_string());
    }
}

#[test]
fn sid_is_written_from_its_digits() {
    assert_eq!(sid_of(&vec![]), "SM");
    assert_eq!(sid_of(&(0..16).collect()), "SM0123456789abcdef");
}

#[test]
fn new_sids_have_the_shape_and_vary() {
    let a = new_sid();
    assert_eq!(a.len(), 34);
    assert!(a.starts_with("SM"));
    assert!(a[2..].chars().all(|c| "0123456789abcdef".contains(c)));
    assert_ne!(a, new_sid());
}

#[test]
fn moments_are_those_of_chrono() {
    let secs = [i64::MIN, MIN_SECS - 1, MIN_SECS, -1, 0, 59, 60, MAX_SECS, MAX_SECS + 1, i64::MAX];
    let nanos = [0, 999_999_999, 1_000_000_000, 1_999_999_999, 2_000_000_000, u32::MAX];
    for s in secs {
        for n in nanos {
            let ours = Timestamp::from_parts(s, n);
            let theirs = chrono::DateTime::from_timestamp(s, n);
            assert_eq!(ours.is_some(), theirs.is_some(), "{s} {n}");
            if let (Some(ours), Some(theirs)) = (ours, theirs) {
                assert_eq!((ours.secs(), ours.nanos()), (s, n));
                assert_eq!(ours.format(ROW_TIME), theirs.format(ROW_TIME).to_string());
            }
        }
    }
}

#[test]
fn moments_are_ordered_as_in_chrono() {
    let parts = [(-5, 0), (-5, 1), (0, 0), (59, 0), (59, 1_500_000_000), (60, 0), (60, 1)];
    for a in parts {
        for b in parts {
            let ours = Timestamp::from_parts(a.0, a.1)
                .unwrap()
                .is_after(&Timestamp::from_parts(b.0, b.1).unwrap());
            let theirs = chrono::DateTime::from_timestamp(a.0, a.1).unwrap()
                > chrono::DateTime::from_timestamp(b.0, b.1).unwrap();
            assert_eq!(ours, theirs);
        }
    }
}

#[test]
fn moments_are_written_in_utc() {
    let at = |secs, nanos| Timestamp::from_parts(secs, nanos).unwrap().format(ROW_TIME);
    assert_eq!(at(0, 0), "01 Jan 00:00:00");
    assert_eq!(at(1431648000, 0), "15 May 00:00:00");
    assert_eq!(at(1709210096, 0), "29 Feb 12:34:56");
    assert_eq!(at(59, 1_000_000_000), "01 Jan 00:00:60");
    assert_eq!(Timestamp::from_parts(0, 0).unwrap().format("at %H"), "at 00");
}

#[test]
fn now_is_now() {
    let before = chrono::Utc::now();
    let now = Timestamp::now();
    let after = chrono::Utc::now();
    let now = chrono::DateTime::from_timestamp(now.secs(), now.nanos()).unwrap();
    assert!(before <= now && now <= after);
}

#[test]
fn listens_where_it_is_told() {
    let addr = |host: Option<&str>, port: Option<&str>| {
        listen_addr(host.map(str::to_string), port.map(str::to_string))
    };
    assert_eq!(addr(None, None), "0.0.0.0:8080");
    assert_eq!(addr(Some("127.0.0.1"), None), "127.0.0.1:8080");
    assert_eq!(addr(None, Some("9000")), "0.0.0.0:9000");
    assert_eq!(addr(Some(""), Some("0")), ":0");
    assert_eq!(addr(None, Some("65535")), "0.0.0.0:65535");
    assert_eq!(addr(None, Some("+0080")), "0.0.0.0:80");
    for bad in ["", "+", "-1", "65536", "80 ", " 80", "8_0", "port", "0x50", "++80", "٣"] {
        assert_eq!(addr(None, Some(bad)), "0.0.0.0:8080", "{bad}");
    }
}
