//! The HTML of the inbox: escaped text, message rows and counts.

use vstd::prelude::*;

use crate::clock;
use crate::ident;
use crate::inbox;
use crate::inbox::{AppState, Message, MessageView};
use crate::listing;
use crate::listing::{RowsQuery, RowsQueryView};
use crate::text;

verus! {

/// What `c` becomes in escaped text.
pub open spec fn entity(c: char) -> Seq<char> {
    if c == '&' {
        "&amp;"@
    } else if c == '<' {
        "&lt;"@
    } else if c == '>' {
        "&gt;"@
    } else if c == '"' {
        "&quot;"@
    } else {
        seq![c]
    }
}

/// `s` with every character replaced by its [`entity`].
pub open spec fn escaped(s: Seq<char>) -> Seq<char>
    decreases s.len(),
{
    if s.len() == 0 {
        Seq::empty()
    } else {
        escaped(s.drop_last()) + entity(s.last())
    }
}

/// HTML-escape user-controlled text (message bodies land in the UI).
pub fn esc(s: &str) -> (out: String)
    ensures
        out@ == escaped(s@),
{
    let mut out = String::new();
    for c in it: s.chars()
        invariant
            it.seq() == s@,
            out@ == escaped(s@.take(it.index())),
    {
        if c == '&' {
            out.append("&amp;");
        } else if c == '<' {
            out.append("&lt;");
        } else if c == '>' {
            out.append("&gt;");
        } else if c == '"' {
            out.append("&quot;");
        } else {
            out.push(c);
        }
        assert(s@.take(it.index() + 1).drop_last() =~= s@.take(it.index()));
    }
    assert(s@.take(s@.len() as int) =~= s@);
    out
}

/// The characters that open, close or quote markup.
pub open spec fn is_markup(c: char) -> bool {
    c == '<' || c == '>' || c == '"'
}

/// The markup characters of `s`, in order.
pub open spec fn markup(s: Seq<char>) -> Seq<char> {
    s.filter(|c: char| is_markup(c))
}

/// Text without markup characters has none to give.
proof fn no_markup(s: Seq<char>)
    requires
        forall|i: int| 0 <= i < s.len() ==> !is_markup(#[trigger] s[i]),
    ensures
        markup(s) == Seq::<char>::empty(),
    decreases s.len(),
{
    reveal(Seq::filter);
    if s.len() > 0 {
        no_markup(s.drop_last());
    }
}

/// What a character becomes in escaped text holds no markup.
proof fn entity_is_plain(c: char)
    ensures
        forall|i: int| 0 <= i < entity(c).len() ==> !is_markup(#[trigger] entity(c)[i]),
{
    reveal_strlit("&amp;");
    reveal_strlit("&lt;");
    reveal_strlit("&gt;");
    reveal_strlit("&quot;");
}

/// Escaped text holds no markup: no `<`, `>` or `"`, whatever the text was.
pub proof fn escaped_is_plain(s: Seq<char>)
    ensures
        forall|i: int| 0 <= i < escaped(s).len() ==> !is_markup(#[trigger] escaped(s)[i]),
        markup(escaped(s)) == Seq::<char>::empty(),
    decreases s.len(),
{
    if s.len() > 0 {
        escaped_is_plain(s.drop_last());
        entity_is_plain(s.last());
    }
    no_markup(escaped(s));
}

/// Escaping goes through the text character by character.
proof fn escaped_first(s: Seq<char>)
    requires
        s.len() > 0,
    ensures
        escaped(s) == entity(s[0]) + escaped(s.drop_first()),
    decreases s.len(),
{
    if s.len() == 1 {
        assert(s.drop_last() =~= Seq::empty());
        assert(s.drop_first() =~= Seq::empty());
    } else {
        escaped_first(s.drop_last());
        assert(s.drop_first().drop_last() =~= s.drop_last().drop_first());
    }
    assert(escaped(s) =~= entity(s[0]) + escaped(s.drop_first()));
}

/// Escaping loses nothing: different texts stay different.
pub proof fn escaped_is_injective(a: Seq<char>, b: Seq<char>)
    ensures
        escaped(a) == escaped(b) ==> a == b,
    decreases a.len(),
{
    reveal_strlit("&amp;");
    reveal_strlit("&lt;");
    reveal_strlit("&gt;");
    reveal_strlit("&quot;");
    if a.len() > 0 {
        escaped_first(a);
    }
    if b.len() > 0 {
        escaped_first(b);
    }
    if a.len() > 0 && b.len() > 0 && escaped(a) == escaped(b) {
        let x = entity(a[0]);
        let y = entity(b[0]);
        assert(escaped(a)[0] == x[0] && escaped(b)[0] == y[0]);
        if x[0] == '&' {
            assert(escaped(a)[1] == x[1] && escaped(b)[1] == y[1]);
        }
        assert(a[0] == b[0]);
        assert(escaped(a.drop_first()) =~= escaped(a).skip(x.len() as int));
        assert(escaped(b.drop_first()) =~= escaped(b).skip(y.len() as int));
        escaped_is_injective(a.drop_first(), b.drop_first());
        assert(a =~= seq![a[0]] + a.drop_first());
        assert(b =~= seq![b[0]] + b.drop_first());
    } else if a.len() == 0 && b.len() == 0 {
        assert(a =~= b);
    }
}

/// How many characters of a body a row shows.
pub const SHORT_BODY_MAX: usize = 90;

/// The start of `body` that a row shows, with an ellipsis if something was cut off.
pub open spec fn shortened(body: Seq<char>) -> Seq<char> {
    if body.len() <= SHORT_BODY_MAX {
        body
    } else {
        body.take(SHORT_BODY_MAX as int) + "…"@
    }
}

/// Shortens `body` to what a row shows.
pub fn short_body(body: &str) -> (out: String)
    ensures
        out@ == shortened(body@),
        body@.len() <= 90 ==> out@ == body@,
        body@.len() > 90 ==> {
            &&& out@.len() == 91
            &&& out@[90] == '…'
            &&& forall|i: int| 0 <= i < 90 ==> #[trigger] out@[i] == body@[i]
        },
{
    proof {
        reveal_strlit("…");
    }
    if body.unicode_len() <= SHORT_BODY_MAX {
        body.to_string()
    } else {
        let mut out = body.substring_char(0, SHORT_BODY_MAX).to_string();
        out.append("…");
        out
    }
}

/// How a row shows the moment of arrival.
pub const ROW_TIME: &'static str = "%d %b %H:%M:%S";

/// What stands in place of the rows of an empty inbox.
pub const NO_ROWS: &'static str = "<tr><td colspan=\"5\" class=\"empty\">No messages yet — request an OTP from the 1KM server and it lands here.</td></tr>";

/// The row of message `m`, with `at` as the text of its moment of arrival.
pub open spec fn row_text(m: MessageView, at: Seq<char>) -> Seq<char> {
    "<tr><td class=\"mono\">"@ + escaped(m.to) + "</td><td class=\"mono\">"@ + escaped(m.from)
        + "</td><td>"@ + escaped(shortened(m.body)) + "<details data-sid=\""@ + escaped(m.sid)
        + "\"><summary>full</summary><div class=\"full\">"@ + escaped(m.body)
        + "</div><div class=\"meta\">sid: "@ + escaped(m.sid) + "<br>id: "@ + ident::hyphenated(
        m.id,
    ) + "</div></details></td><td><span class=\"badge "@ + m.provider + "\">"@ + escaped(m.provider)
        + "</span></td><td class=\"mono at\">"@ + at + "</td></tr>"@
}

/// Writes the row of message `m`, with `at` as the text of its moment of arrival.
pub fn row_html(m: &Message, at: &str) -> (out: String)
    ensures
        out@ == row_text(m@, at@),
{
    let mut out = "<tr><td class=\"mono\">".to_string();
    out.append(&esc(&m.to));
    out.append("</td><td class=\"mono\">");
    out.append(&esc(&m.from));
    out.append("</td><td>");
    out.append(&esc(&short_body(&m.body)));
    out.append("<details data-sid=\"");
    out.append(&esc(&m.sid));
    out.append("\"><summary>full</summary><div class=\"full\">");
    out.append(&esc(&m.body));
    out.append("</div><div class=\"meta\">sid: ");
    out.append(&esc(&m.sid));
    out.append("<br>id: ");
    out.append(&ident::uuid_text(m.id));
    out.append("</div></details></td><td><span class=\"badge ");
    out.append(m.provider);
    out.append("\">");
    out.append(&esc(m.provider));
    out.append("</span></td><td class=\"mono at\">");
    out.append(at);
    out.append("</td></tr>");
    out
}

/// A row without the texts of its message.
pub open spec fn row_frame() -> Seq<char> {
    "<tr><td class=\"mono\">"@ + "</td><td class=\"mono\">"@ + "</td><td>"@
        + "<details data-sid=\""@ + "\"><summary>full</summary><div class=\"full\">"@
        + "</div><div class=\"meta\">sid: "@ + "<br>id: "@
        + "</div></details></td><td><span class=\"badge "@ + "\">"@
        + "</span></td><td class=\"mono at\">"@ + "</td></tr>"@
}

/// A UUID is written without markup.
proof fn uuid_is_plain(id: u128)
    ensures
        markup(ident::hyphenated(id)) == Seq::<char>::empty(),
{
    reveal_strlit("-");
    reveal_strlit("0123456789abcdef");
    no_markup(ident::hyphenated(id));
}

/// No text of a message adds, removes or moves markup: the markup of a row is that of its frame.
pub proof fn row_markup_is_fixed(m: MessageView, at: Seq<char>)
    requires
        markup(m.provider) == Seq::<char>::empty(),
        markup(at) == Seq::<char>::empty(),
    ensures
        markup(row_text(m, at)) == markup(row_frame()),
{
    broadcast use Seq::filter_distributes_over_add;

    escaped_is_plain(m.to);
    escaped_is_plain(m.from);
    escaped_is_plain(shortened(m.body));
    escaped_is_plain(m.body);
    escaped_is_plain(m.sid);
    escaped_is_plain(m.provider);
    uuid_is_plain(m.id);
    assert(markup(row_text(m, at)) =~= markup(row_frame()));
}

/// The text of a row's moment of arrival.
pub open spec fn arrival_text(m: MessageView) -> Seq<char> {
    clock::utc_text(m.received_at.secs, m.received_at.nanos, ROW_TIME@)
}

/// The rows of `items`, one after the other.
pub open spec fn rows_of(items: Seq<MessageView>) -> Seq<char>
    decreases items.len(),
{
    if items.len() == 0 {
        Seq::empty()
    } else {
        rows_of(items.drop_last()) + row_text(items.last(), arrival_text(items.last()))
    }
}

/// The table body for `items`: their rows, or a notice if there are none.
pub open spec fn table_text(items: Seq<MessageView>) -> Seq<char> {
    if items.len() == 0 {
        NO_ROWS@
    } else {
        rows_of(items)
    }
}

/// `s`, `n` times over.
pub open spec fn repeated(s: Seq<char>, n: nat) -> Seq<char>
    decreases n,
{
    if n == 0 {
        Seq::empty()
    } else {
        repeated(s, (n - 1) as nat) + s
    }
}

/// The providers of `items` are written without markup, as `twilio` and `custom` are.
pub open spec fn plain_providers(items: Seq<MessageView>) -> bool {
    forall|i: int|
        0 <= i < items.len() ==> markup((#[trigger] items[i]).provider) == Seq::<char>::empty()
}

/// The providers that the server has are written without markup.
pub proof fn known_providers_are_plain(items: Seq<MessageView>)
    requires
        inbox::known_providers(items),
    ensures
        plain_providers(items),
{
    reveal_strlit("twilio");
    reveal_strlit("custom");
    no_markup("twilio"@);
    no_markup("custom"@);
    assert forall|i: int| 0 <= i < items.len() implies markup((#[trigger] items[i]).provider)
        == Seq::<char>::empty() by {
        assert(inbox::known_provider(items[i]));
    }
}

/// Whatever the query, the rows of an inbox that the server filled have providers without markup.
pub proof fn shown_providers_are_plain(s: Seq<MessageView>, query: RowsQueryView)
    requires
        inbox::known_providers(s),
    ensures
        inbox::known_providers(listing::shown(s, query)),
        plain_providers(listing::shown(s, query)),
{
    let items = listing::shown(s, query);
    assert forall|i: int| 0 <= i < items.len() implies inbox::known_provider(
        #[trigger] items[i],
    ) by {
        assert(items.contains(items[i]));
        listing::shown_are_the_selected(s, query, items[i]);
        assert(inbox::known_provider(s[s.index_of(items[i])]));
    }
    known_providers_are_plain(items);
}

/// Writes the table body for `items`.
pub fn rows_html(items: &[Message]) -> (out: String)
    ensures
        out@ == table_text(inbox::views(items@)),
        plain_providers(inbox::views(items@)) && items.len() > 0 ==> markup(out@) == repeated(
            markup(row_frame()),
            items@.len(),
        ),
{
    if items.len() == 0 {
        return NO_ROWS.to_string();
    }
    let mut out = String::new();
    proof {
        no_markup(out@);
    }
    for k in 0..items.len()
        invariant
            out@ == rows_of(inbox::views(items@).take(k as int)),
            plain_providers(inbox::views(items@)) ==> markup(out@) == repeated(
                markup(row_frame()),
                k as nat,
            ),
    {
        let m = &items[k];
        proof {
            reveal_strlit("%d %b %H:%M:%S");
        }
        let at = m.received_at.format(ROW_TIME);
        proof {
            no_markup(at@);
            Seq::filter_distributes_over_add(
                out@,
                row_text(m@, at@),
                |c: char| is_markup(c),
            );
            if plain_providers(inbox::views(items@)) {
                assert(inbox::views(items@)[k as int] == m@);
                row_markup_is_fixed(m@, at@);
            }
        }
        out.append(&row_html(m, &at));
        assert(inbox::views(items@).take(k + 1).drop_last() =~= inbox::views(items@).take(
            k as int,
        ));
    }
    assert(inbox::views(items@).take(items.len() as int) =~= inbox::views(items@));
    out
}

/// How many messages of `s` come from `provider`.
pub open spec fn count_from(s: Seq<MessageView>, provider: Seq<char>) -> nat {
    s.filter(|m: MessageView| m.provider == provider).len()
}

/// The counts of `s`: all messages, those from Twilio, and the others.
pub open spec fn stats_text(s: Seq<MessageView>) -> Seq<char> {
    let total = s.len();
    let twilio = count_from(s, "twilio"@);
    "<strong>"@ + text::decimal(total) + "</strong> "@ + (if total == 1 {
        "message"@
    } else {
        "messages"@
    }) + " · <span class=\"badge twilio\">twilio "@ + text::decimal(twilio)
        + "</span> <span class=\"badge custom\">custom "@ + text::decimal((total - twilio) as nat)
        + "</span>"@
}

/// Writes the counts of the inbox.
pub fn stats_html(state: &AppState) -> (out: String)
    ensures
        out@ == stats_text(state@),
{
    let total: usize = state.inbox.len();
    let mut twilio: usize = 0;
    let ghost from_twilio = |m: MessageView| m.provider == "twilio"@;
    assert(state@.take(0).filter(from_twilio).len() == 0) by {
        reveal(Seq::filter);
    }
    for k in 0..total
        invariant
            total == state.inbox.len(),
            from_twilio == (|m: MessageView| m.provider == "twilio"@),
            twilio <= k,
            twilio == state@.take(k as int).filter(from_twilio).len(),
    {
        let m = &state.inbox[k];
        assert(state@.take(k + 1) =~= state@.take(k as int).push(m@));
        proof {
            state@.take(k as int).lemma_filter_len_push(from_twilio, m@);
        }
        if *m.provider == *"twilio" {
            twilio = twilio + 1;
        }
    }
    assert(state@.take(total as int) =~= state@);
    let custom: usize = total - twilio;
    let plural = if total == 1 {
        "message"
    } else {
        "messages"
    };
    let mut out = "<strong>".to_string();
    out.append(&text::decimal_text(total));
    out.append("</strong> ");
    out.append(plural);
    out.append(" · <span class=\"badge twilio\">twilio ");
    out.append(&text::decimal_text(twilio));
    out.append("</span> <span class=\"badge custom\">custom ");
    out.append(&text::decimal_text(custom));
    out.append("</span>");
    out
}

/// The rows of the inbox that the query selects.
pub fn rows(state: &AppState, q: &RowsQuery) -> (out: String)
    ensures
        out@ == table_text(listing::shown(state@, q@)),
        plain_providers(listing::shown(state@, q@)) && listing::shown(state@, q@).len() > 0
            ==> markup(out@) == repeated(
            markup(row_frame()),
            listing::shown(state@, q@).len(),
        ),
        inbox::known_providers(state@) && listing::shown(state@, q@).len() > 0 ==> markup(out@)
            == repeated(markup(row_frame()), listing::shown(state@, q@).len()),
{
    let items = listing::filtered(state, q);
    assert(inbox::views(items@).len() == items.len());
    proof {
        if inbox::known_providers(state@) {
            shown_providers_are_plain(state@, q@);
        }
    }
    rows_html(&items)
}

/// The counts of the inbox.
pub fn stats(state: &AppState) -> (out: String)
    ensures
        out@ == stats_text(state@),
{
    stats_html(state)
}

/// Empties the inbox, and writes the table body that is left.
pub fn clear(state: &mut AppState) -> (out: String)
    ensures
        final(state)@ == Seq::<MessageView>::empty(),
        final(state).wf(),
        inbox::known_providers(final(state)@),
        final(state).inbox@.len() == 0,
        out@ == NO_ROWS@,
{
    state.clear();
    rows_html(&[])
}

/// A text occurs where it ends another.
broadcast proof fn occurs_at_end(before: Seq<char>, t: Seq<char>)
    ensures
        #[trigger] text::has_substring(before + t, t),
{
    let i = before.len() as int;
    assert((before + t).subrange(i, i + t.len()) =~= t);
}

/// What occurs in a text occurs in every longer one.
broadcast proof fn occurs_in_longer(s: Seq<char>, more: Seq<char>, t: Seq<char>)
    requires
        text::has_substring(s, t),
    ensures
        #[trigger] text::has_substring(s + more, t),
{
    let i = choose|i: int|
        0 <= i <= s.len() - t.len() && #[trigger] s.subrange(i, i + t.len()) == t;
    assert((s + more).subrange(i, i + t.len()) =~= t);
}

/// A row shows the recipient, the sender and the whole body of its message, escaped.
pub proof fn row_shows_message(m: MessageView, at: Seq<char>)
    ensures
        text::has_substring(row_text(m, at), escaped(m.to)),
        text::has_substring(row_text(m, at), escaped(m.from)),
        text::has_substring(row_text(m, at), escaped(m.body)),
{
    broadcast use {occurs_at_end, occurs_in_longer};

}

/// The table body shows the row of each message.
pub proof fn table_shows_each_row(items: Seq<MessageView>, k: int)
    requires
        0 <= k < items.len(),
    ensures
        text::has_substring(table_text(items), row_text(items[k], arrival_text(items[k]))),
    decreases items.len(),
{
    let rest = rows_of(items.drop_last());
    let last = row_text(items.last(), arrival_text(items.last()));
    let row = row_text(items[k], arrival_text(items[k]));
    if k == items.len() - 1 {
        occurs_at_end(rest, last);
    } else {
        table_shows_each_row(items.drop_last(), k);
        occurs_in_longer(rest, last, row);
    }
}

/// The rows of a query show each message of the inbox that the query selects.
pub proof fn selected_message_is_shown(s: Seq<MessageView>, query: RowsQueryView, m: MessageView)
    requires
        s.contains(m),
        query.selects(m),
    ensures
        text::has_substring(
            table_text(listing::shown(s, query)),
            row_text(m, arrival_text(m)),
        ),
{
    listing::shown_are_the_selected(s, query, m);
    let items = listing::shown(s, query);
    table_shows_each_row(items, items.index_of(m));
}

/// The count for a provider is the number of rows that a query for that provider shows.
pub proof fn count_is_rows_shown(s: Seq<MessageView>, provider: Seq<char>)
    requires
        provider.len() > 0,
    ensures
        count_from(s, provider) == listing::shown(
            s,
            RowsQueryView { q: None, provider: Some(provider) },
        ).len(),
{
    listing::shown_by_provider(s, provider);
}

/// With no messages but from the two providers, the counts add up: what is not from Twilio is
/// custom.
pub proof fn counts_add_up(s: Seq<MessageView>)
    requires
        inbox::known_providers(s),
    ensures
        count_from(s, "twilio"@) + count_from(s, "custom"@) == s.len(),
    decreases s.len(),
{
    reveal(Seq::filter);
    reveal_strlit("twilio");
    reveal_strlit("custom");
    if s.len() > 0 {
        assert("twilio"@[0] != "custom"@[0]);
        assert(inbox::known_provider(s[s.len() - 1]));
        assert forall|i: int| 0 <= i < s.drop_last().len() implies inbox::known_provider(
            #[trigger] s.drop_last()[i],
        ) by {
            assert(inbox::known_provider(s[i]));
        }
        counts_add_up(s.drop_last());
    }
}

/// An empty inbox shows no rows, only the notice, whatever the query.
pub proof fn empty_inbox_shows_notice(query: RowsQueryView)
    ensures
        listing::newest_first(Seq::empty()) == Seq::<MessageView>::empty(),
        table_text(listing::shown(Seq::empty(), query)) == NO_ROWS@,
{
    let none = Seq::<MessageView>::empty();
    listing::listing_is_complete(none);
    assert(listing::newest_first(none) =~= none);
    none.lemma_filter_len(|m: MessageView| query.selects(m));
}

/// The four special characters become their entities, and every other character stays itself.
pub proof fn escaped_character(c: char)
    ensures
        escaped(seq!['&']) == seq!['&', 'a', 'm', 'p', ';'],
        escaped(seq!['<']) == seq!['&', 'l', 't', ';'],
        escaped(seq!['>']) == seq!['&', 'g', 't', ';'],
        escaped(seq!['"']) == seq!['&', 'q', 'u', 'o', 't', ';'],
        c != '&' && c != '<' && c != '>' && c != '"' ==> escaped(seq![c]) == seq![c],
        escaped(Seq::empty()) == Seq::<char>::empty(),
{
    reveal_strlit("&amp;");
    reveal_strlit("&lt;");
    reveal_strlit("&gt;");
    reveal_strlit("&quot;");
    assert forall|x: char| escaped(#[trigger] seq![x]) =~= entity(x) by {
        assert(seq![x].drop_last() =~= Seq::empty());
        assert(escaped(seq![x].drop_last()) =~= Seq::empty());
    }
    assert(escaped(seq!['&']) =~= seq!['&', 'a', 'm', 'p', ';']);
    assert(escaped(seq!['<']) =~= seq!['&', 'l', 't', ';']);
    assert(escaped(seq!['>']) =~= seq!['&', 'g', 't', ';']);
    assert(escaped(seq!['"']) =~= seq!['&', 'q', 'u', 'o', 't', ';']);
    assert(escaped(seq![c]) =~= entity(c));
}

/// Escaping a text is escaping its parts, wherever it is cut and however long it is.
pub proof fn escaped_by_parts(a: Seq<char>, b: Seq<char>)
    ensures
        escaped(a + b) == escaped(a) + escaped(b),
    decreases b.len(),
{
    if b.len() == 0 {
        assert(a + b =~= a);
        assert(escaped(a + b) =~= escaped(a) + escaped(b));
    } else {
        escaped_by_parts(a, b.drop_last());
        assert((a + b).drop_last() =~= a + b.drop_last());
        assert(escaped(a + b) =~= escaped(a) + escaped(b));
    }
}

/// A row shows a body of up to 90 characters as it is. Of a longer one it shows the first 90
/// characters, each in its place, and an ellipsis.
pub proof fn shortened_is_the_start(body: Seq<char>)
    ensures
        body.len() <= 90 ==> shortened(body) == body,
        body.len() > 90 ==> shortened(body).len() == 91,
        body.len() > 90 ==> shortened(body).last() == '…',
        body.len() > 90 ==> forall|i: int|
            0 <= i < 90 ==> #[trigger] shortened(body)[i] == body[i],
{
    reveal_strlit("…");
}

/// Joining texts can begin at either end.
broadcast proof fn joined_from_either_end(a: Seq<char>, b: Seq<char>, c: Seq<char>)
    ensures
        #[trigger] (a + (b + c)) == a + b + c,
{
    assert(a + (b + c) =~= a + b + c);
}

/// How the pieces of a row fit together at the borders of its cells.
proof fn cell_borders()
    ensures
        "<tr><td class=\"mono\">"@ == "<tr>"@ + "<td class=\"mono\">"@,
        "</td><td class=\"mono\">"@ == "</td>"@ + "<td class=\"mono\">"@,
        "</td><td>"@ == "</td>"@ + "<td>"@,
        "</div></details></td><td><span class=\"badge "@ == "</div></details></td>"@
            + "<td><span class=\"badge "@,
        "</span></td><td class=\"mono at\">"@ == "</span></td>"@ + "<td class=\"mono at\">"@,
        "</td></tr>"@ == "</td>"@ + "</tr>"@,
{
    reveal_strlit("<tr>");
    reveal_strlit("</tr>");
    reveal_strlit("<td>");
    reveal_strlit("</td>");
    reveal_strlit("<td class=\"mono\">");
    reveal_strlit("<tr><td class=\"mono\">");
    reveal_strlit("</td><td class=\"mono\">");
    reveal_strlit("</td><td>");
    reveal_strlit("</div></details></td>");
    reveal_strlit("<td><span class=\"badge ");
    reveal_strlit("</div></details></td><td><span class=\"badge ");
    reveal_strlit("</span></td>");
    reveal_strlit("<td class=\"mono at\">");
    reveal_strlit("</span></td><td class=\"mono at\">");
    reveal_strlit("</td></tr>");
    assert("<tr><td class=\"mono\">"@ =~= "<tr>"@ + "<td class=\"mono\">"@);
    assert("</td><td class=\"mono\">"@ =~= "</td>"@ + "<td class=\"mono\">"@);
    assert("</td><td>"@ =~= "</td>"@ + "<td>"@);
    assert("</div></details></td><td><span class=\"badge "@ =~= "</div></details></td>"@
        + "<td><span class=\"badge "@);
    assert("</span></td><td class=\"mono at\">"@ =~= "</span></td>"@
        + "<td class=\"mono at\">"@);
    assert("</td></tr>"@ =~= "</td>"@ + "</tr>"@);
}

/// A row has five cells: the recipient, the sender, the body (its start, and in the disclosure the
/// whole of it with the SID and the identifier), the provider's badge, and the time.
pub proof fn row_has_five_cells(m: MessageView, at: Seq<char>)
    ensures
        ({
            let to = "<td class=\"mono\">"@ + escaped(m.to) + "</td>"@;
            let from = "<td class=\"mono\">"@ + escaped(m.from) + "</td>"@;
            let body = "<td>"@ + escaped(shortened(m.body)) + "<details data-sid=\""@ + escaped(
                m.sid,
            ) + "\"><summary>full</summary><div class=\"full\">"@ + escaped(m.body)
                + "</div><div class=\"meta\">sid: "@ + escaped(m.sid) + "<br>id: "@
                + ident::hyphenated(m.id) + "</div></details></td>"@;
            let via = "<td><span class=\"badge "@ + m.provider + "\">"@ + escaped(m.provider)
                + "</span></td>"@;
            let when = "<td class=\"mono at\">"@ + at + "</td>"@;
            row_text(m, at) == "<tr>"@ + to + from + body + via + when + "</tr>"@
        }),
{
    broadcast use joined_from_either_end;

    cell_borders();
}

/// The table body of one message is its row, with the time as `%d %b %H:%M:%S` in UTC; that of none
/// is the notice.
pub proof fn table_of_one(m: MessageView)
    ensures
        table_text(seq![m]) == row_text(
            m,
            clock::utc_text(m.received_at.secs, m.received_at.nanos, "%d %b %H:%M:%S"@),
        ),
        table_text(Seq::empty()) == NO_ROWS@,
{
    assert(seq![m].drop_last() =~= Seq::empty());
    assert(rows_of(seq![m].drop_last()) =~= Seq::empty());
    assert(table_text(seq![m]) =~= row_text(m, arrival_text(m)));
}

/// The table body of two runs of messages is that of the first, followed by that of the second.
pub proof fn table_by_parts(a: Seq<MessageView>, b: Seq<MessageView>)
    requires
        a.len() > 0,
        b.len() > 0,
    ensures
        table_text(a + b) == table_text(a) + table_text(b),
{
    rows_by_parts(a, b);
}

/// Rows follow one another.
proof fn rows_by_parts(a: Seq<MessageView>, b: Seq<MessageView>)
    ensures
        rows_of(a + b) == rows_of(a) + rows_of(b),
    decreases b.len(),
{
    if b.len() == 0 {
        assert(a + b =~= a);
        assert(rows_of(a + b) =~= rows_of(a) + rows_of(b));
    } else {
        rows_by_parts(a, b.drop_last());
        assert((a + b).drop_last() =~= a + b.drop_last());
        assert(rows_of(a + b) =~= rows_of(a) + rows_of(b));
    }
}

/// Each arrival adds one to the count of its provider, and nothing to any other.
pub proof fn arrival_is_counted_once(s: Seq<MessageView>, m: MessageView, provider: Seq<char>)
    ensures
        count_from(Seq::empty(), provider) == 0,
        count_from(s.push(m), provider) == count_from(s, provider) + (if m.provider == provider {
            1nat
        } else {
            0
        }),
{
    reveal(Seq::filter);
    s.lemma_filter_len_push(|m: MessageView| m.provider == provider, m);
}

/// The counts are shown in full: of all messages, of those from Twilio, and of all others.
pub proof fn stats_show_the_counts(s: Seq<MessageView>)
    ensures
        ({
            let twilio = s.filter(|m: MessageView| m.provider == "twilio"@).len();
            let total = "<strong>"@ + text::decimal(s.len()) + "</strong>"@;
            let noun = if s.len() == 1 {
                " message "@
            } else {
                " messages "@
            };
            let from_twilio = "· <span class=\"badge twilio\">twilio "@ + text::decimal(twilio)
                + "</span>"@;
            let from_others = " <span class=\"badge custom\">custom "@ + text::decimal(
                (s.len() - twilio) as nat,
            ) + "</span>"@;
            stats_text(s) == total + noun + from_twilio + from_others
        }),
{
    broadcast use joined_from_either_end;

    stats_borders();
}

/// How the pieces of the counts fit together.
proof fn stats_borders()
    ensures
        "</strong> "@ == "</strong>"@ + " "@,
        " message "@ == " "@ + "message"@ + " "@,
        " messages "@ == " "@ + "messages"@ + " "@,
        " · <span class=\"badge twilio\">twilio "@ == " "@
            + "· <span class=\"badge twilio\">twilio "@,
        "</span> <span class=\"badge custom\">custom "@ == "</span>"@
            + " <span class=\"badge custom\">custom "@,
{
    reveal_strlit(" ");
    reveal_strlit("</strong>");
    reveal_strlit("</strong> ");
    reveal_strlit("message");
    reveal_strlit(" message ");
    reveal_strlit("messages");
    reveal_strlit(" messages ");
    reveal_strlit(" · <span class=\"badge twilio\">twilio ");
    reveal_strlit("· <span class=\"badge twilio\">twilio ");
    reveal_strlit("</span>");
    reveal_strlit(" <span class=\"badge custom\">custom ");
    reveal_strlit("</span> <span class=\"badge custom\">custom ");
    assert("</strong> "@ =~= "</strong>"@ + " "@);
    assert(" message "@ =~= " "@ + "message"@ + " "@);
    assert(" messages "@ =~= " "@ + "messages"@ + " "@);
    assert(" · <span class=\"badge twilio\">twilio "@ =~= " "@
        + "· <span class=\"badge twilio\">twilio "@);
    assert("</span> <span class=\"badge custom\">custom "@ =~= "</span>"@
        + " <span class=\"badge custom\">custom "@);
}

} // verus!
