//! How the inbox is listed: newest first, and filtered by a query.

use vstd::prelude::*;

use crate::clock::Moment;
use crate::inbox;
use crate::inbox::{AppState, Message, MessageView};
use crate::text;

verus! {

/// In a listing of `s`, the message at `i` comes before the one at `j`: it is newer, or as old and
/// arrived earlier.
pub open spec fn listed_before(s: Seq<MessageView>, i: int, j: int) -> bool {
    s[i].received_at.after(s[j].received_at) || (s[i].received_at == s[j].received_at && i < j)
}

/// `order` holds each index of `s` from `from` on, in the order in which a listing shows them.
pub open spec fn is_listing_order(s: Seq<MessageView>, from: int, order: Seq<int>) -> bool {
    &&& order.len() == s.len() - from
    &&& forall|k: int| 0 <= k < order.len() ==> from <= #[trigger] order[k] < s.len()
    &&& forall|i: int| from <= i < s.len() ==> order.contains(i)
    &&& forall|k: int, l: int|
        0 <= k < l < order.len() ==> listed_before(s, #[trigger] order[k], #[trigger] order[l])
}

/// The messages of `s` at the indices of `order`.
pub open spec fn picked(s: Seq<MessageView>, order: Seq<int>) -> Seq<MessageView> {
    order.map_values(|i: int| s[i])
}

/// `out` holds the messages of `s`, newest first; among those of the same moment, the first to
/// arrive comes first.
pub open spec fn is_newest_first(s: Seq<MessageView>, out: Seq<MessageView>) -> bool {
    exists|order: Seq<int>| #[trigger] is_listing_order(s, 0, order) && out == picked(s, order)
}

/// The messages of `s`, newest first.
pub open spec fn newest_first(s: Seq<MessageView>) -> Seq<MessageView> {
    choose|out: Seq<MessageView>| is_newest_first(s, out)
}

/// Putting index `i` in its place extends a listing order to the left.
proof fn order_extends(s: Seq<MessageView>, i: int, order: Seq<int>, at: int)
    requires
        0 <= i < s.len(),
        is_listing_order(s, i + 1, order),
        0 <= at <= order.len(),
        forall|k: int|
            0 <= k < at ==> s[#[trigger] order[k]].received_at.after(s[i].received_at),
        at < order.len() ==> !s[order[at]].received_at.after(s[i].received_at),
    ensures
        is_listing_order(s, i, order.insert(at, i)),
{
    let wider = order.insert(at, i);
    assert forall|j: int| i <= j < s.len() implies wider.contains(j) by {
        if j == i {
            assert(wider[at] == i);
        } else {
            assert(order.contains(j));
            let k = order.index_of(j);
            if k < at {
                assert(wider[k] == j);
            } else {
                assert(wider[k + 1] == j);
            }
        }
    }
    assert forall|k: int, l: int| 0 <= k < l < wider.len() implies listed_before(
        s,
        #[trigger] wider[k],
        #[trigger] wider[l],
    ) by {
        if l < at {
            assert(listed_before(s, order[k], order[l]));
        } else if l == at {
            assert(wider[k] == order[k]);
        } else {
            assert(wider[l] == order[l - 1]);
            if at < l - 1 {
                assert(listed_before(s, order[at], order[l - 1]));
            }
            if k < at {
                assert(listed_before(s, order[k], order[l - 1]));
            } else if k > at {
                assert(listed_before(s, order[k - 1], order[l - 1]));
            }
        }
    }
}

/// The messages of `s` that came at the moment `t`, in their order.
pub open spec fn of_moment(s: Seq<MessageView>, t: Moment) -> Seq<MessageView> {
    s.filter(|m: MessageView| m.received_at == t)
}

/// A message put behind newer ones comes first among those of its moment.
proof fn moment_after_insert(s: Seq<MessageView>, at: int, m: MessageView, t: Moment)
    requires
        0 <= at <= s.len(),
        forall|k: int| 0 <= k < at ==> (#[trigger] s[k]).received_at.after(m.received_at),
    ensures
        of_moment(s.insert(at, m), t) == (if m.received_at == t {
            seq![m]
        } else {
            Seq::empty()
        }) + of_moment(s, t),
{
    let wanted = |m: MessageView| m.received_at == t;
    let left = s.take(at);
    let right = s.skip(at);
    assert(s =~= left + right);
    assert(s.insert(at, m) =~= left + (seq![m] + right));
    Seq::filter_distributes_over_add(left, right, wanted);
    Seq::filter_distributes_over_add(left, seq![m] + right, wanted);
    right.lemma_filter_prepend(m, wanted);
    if m.received_at == t {
        assert forall|k: int| 0 <= k < left.len() implies !wanted(#[trigger] left[k]) by {
            assert(s[k].received_at.after(m.received_at));
        }
        left.lemma_all_neg_filter_empty(wanted);
        assert(left.filter(wanted) =~= Seq::empty());
    }
    assert(of_moment(s.insert(at, m), t) =~= (if m.received_at == t {
        seq![m]
    } else {
        Seq::empty()
    }) + of_moment(s, t));
}

/// A sequence has a listing order.
proof fn order_exists(s: Seq<MessageView>, from: int) -> (order: Seq<int>)
    requires
        0 <= from <= s.len(),
    ensures
        is_listing_order(s, from, order),
        picked(s, order).to_multiset() == s.skip(from).to_multiset(),
        forall|t: Moment| #[trigger] of_moment(picked(s, order), t) == of_moment(s.skip(from), t),
    decreases s.len() - from,
{
    broadcast use vstd::seq_lib::group_to_multiset_ensures;

    if from == s.len() {
        assert(picked(s, Seq::empty()) =~= s.skip(from));
        Seq::empty()
    } else {
        let rest = order_exists(s, from + 1);
        let at = place_in(s, from, rest, 0);
        order_extends(s, from, rest, at);
        assert(picked(s, rest.insert(at, from)) =~= picked(s, rest).insert(at, s[from]));
        assert(s.skip(from) =~= s.skip(from + 1).insert(0, s[from]));
        assert forall|t: Moment| #[trigger]
            of_moment(picked(s, rest.insert(at, from)), t) == of_moment(s.skip(from), t) by {
            moment_after_insert(picked(s, rest), at, s[from], t);
            assert(of_moment(picked(s, rest), t) == of_moment(s.skip(from + 1), t));
            assert(s.skip(from) =~= seq![s[from]] + s.skip(from + 1));
            s.skip(from + 1).lemma_filter_prepend(s[from], |m: MessageView| m.received_at == t);
        }
        rest.insert(at, from)
    }
}

/// Where index `i` belongs in a listing order, looking from place `at` on.
proof fn place_in(s: Seq<MessageView>, i: int, order: Seq<int>, at: int) -> (place: int)
    requires
        0 <= at <= order.len(),
        forall|k: int|
            0 <= k < at ==> s[#[trigger] order[k]].received_at.after(s[i].received_at),
    ensures
        0 <= place <= order.len(),
        forall|k: int|
            0 <= k < place ==> s[#[trigger] order[k]].received_at.after(s[i].received_at),
        place < order.len() ==> !s[order[place]].received_at.after(s[i].received_at),
    decreases order.len() - at,
{
    if at < order.len() && s[order[at]].received_at.after(s[i].received_at) {
        place_in(s, i, order, at + 1)
    } else {
        at
    }
}

/// Two listing orders of the same messages agree up to place `n`.
proof fn orders_agree(s: Seq<MessageView>, a: Seq<int>, b: Seq<int>, n: int)
    requires
        is_listing_order(s, 0, a),
        is_listing_order(s, 0, b),
        0 <= n <= s.len(),
    ensures
        a.take(n) == b.take(n),
    decreases n,
{
    if n > 0 {
        let k = n - 1;
        orders_agree(s, a, b, k);
        assert forall|j: int| 0 <= j < k implies a[j] == b[j] by {
            assert(a.take(k)[j] == b.take(k)[j]);
        }
        if a[k] != b[k] {
            assert(b.contains(a[k]));
            assert(a.contains(b[k]));
            let l = b.index_of(a[k]);
            let m = a.index_of(b[k]);
            assert(listed_before(s, b[k], b[l])) by {
                if l < k {
                    assert(listed_before(s, a[l], a[k]));
                }
            }
            assert(listed_before(s, a[k], a[m])) by {
                if m < k {
                    assert(listed_before(s, b[m], b[k]));
                }
            }
        }
        assert(a.take(n) =~= a.take(k).push(a[k]));
        assert(b.take(n) =~= b.take(k).push(b[k]));
    }
}

/// A listing holds every message once, newest first, and there is one way only to do that.
pub proof fn listing_is_unique(s: Seq<MessageView>, out: Seq<MessageView>)
    ensures
        is_newest_first(s, newest_first(s)),
        is_newest_first(s, out) <==> out == newest_first(s),
{
    let order = order_exists(s, 0);
    assert(is_newest_first(s, picked(s, order)));
    let chosen = newest_first(s);
    if is_newest_first(s, out) {
        let a = choose|a: Seq<int>| #[trigger] is_listing_order(s, 0, a) && out == picked(s, a);
        let b = choose|b: Seq<int>| #[trigger] is_listing_order(s, 0, b) && chosen == picked(s, b);
        orders_agree(s, a, b, s.len() as int);
        assert(a.take(s.len() as int) =~= a);
        assert(b.take(s.len() as int) =~= b);
    }
}

/// The inbox, newest first.
pub fn listing(state: &AppState) -> (out: Vec<Message>)
    ensures
        inbox::views(out@) == newest_first(state@),
        is_newest_first(state@, inbox::views(out@)),
{
    let mut out: Vec<Message> = Vec::new();
    let mut i: usize = state.inbox.len();
    let ghost mut order: Seq<int> = Seq::empty();
    assert(inbox::views(out@) =~= picked(state@, order));
    while i > 0
        invariant
            i <= state.inbox.len(),
            is_listing_order(state@, i as int, order),
            out.len() == order.len(),
            inbox::views(out@) == picked(state@, order),
        decreases i,
    {
        i = i - 1;
        let mut at: usize = out.len();
        while at > 0 && !out[at - 1].received_at.is_after(&state.inbox[i].received_at)
            invariant
                i < state.inbox.len(),
                at <= out.len(),
                is_listing_order(state@, i + 1, order),
                out.len() == order.len(),
                inbox::views(out@) == picked(state@, order),
                at < out.len() ==> !state@[order[at as int]].received_at.after(
                    state@[i as int].received_at,
                ),
            decreases at,
        {
            at = at - 1;
            assert(inbox::views(out@)[at as int] == picked(state@, order)[at as int]);
        }
        proof {
            if at > 0 {
                assert(inbox::views(out@)[at - 1] == picked(state@, order)[at - 1]);
                assert forall|k: int| 0 <= k < at implies state@[
                #[trigger] order[k]].received_at.after(state@[i as int].received_at) by {
                    if k < at - 1 {
                        assert(listed_before(state@, order[k], order[at - 1]));
                    }
                }
            }
            order_extends(state@, i as int, order, at as int);
        }
        let ghost rest = out@;
        out.insert(at, state.inbox[i].clone());
        proof {
            let m = state@[i as int];
            assert(inbox::views(out@) =~= inbox::views(rest).insert(at as int, m));
            assert(picked(state@, order.insert(at as int, i as int)) =~= picked(
                state@,
                order,
            ).insert(at as int, m));
            order = order.insert(at as int, i as int);
        }
    }
    proof {
        listing_is_unique(state@, inbox::views(out@));
    }
    out
}

/// `needle` is empty, or occurs in one of the three texts.
pub open spec fn occurs(
    needle: Seq<char>,
    to: Seq<char>,
    from: Seq<char>,
    body: Seq<char>,
) -> bool {
    ||| needle.len() == 0
    ||| text::has_substring(to, needle)
    ||| text::has_substring(from, needle)
    ||| text::has_substring(body, needle)
}

/// A text occurs in three others exactly if one of them is that text with something before it and
/// something after it, if only nothing.
pub proof fn occurs_as_a_part(
    needle: Seq<char>,
    to: Seq<char>,
    from: Seq<char>,
    body: Seq<char>,
)
    ensures
        occurs(needle, to, from, body) <==> exists|before: Seq<char>, after: Seq<char>|
            {
                let field = #[trigger] (before + needle + after);
                to == field || from == field || body == field
            },
{
    if occurs(needle, to, from, body) {
        if needle.len() == 0 {
            assert(to =~= Seq::<char>::empty() + needle + to);
        } else if text::has_substring(to, needle) {
            text::substring_splits(to, needle);
        } else if text::has_substring(from, needle) {
            text::substring_splits(from, needle);
        } else {
            text::substring_splits(body, needle);
        }
    }
    assert forall|before: Seq<char>, after: Seq<char>|
        {
            let field = #[trigger] (before + needle + after);
            to == field || from == field || body == field
        } implies occurs(needle, to, from, body) by {
        text::substring_between(before, needle, after);
    }
}

/// Tells whether `needle` is empty or occurs in one of the three texts, letter for letter.
pub fn occurs_in(needle: &str, to: &str, from: &str, body: &str) -> (found: bool)
    ensures
        found == occurs(needle@, to@, from@, body@),
        found <==> exists|before: Seq<char>, after: Seq<char>|
            {
                let field = #[trigger] (before + needle@ + after);
                to@ == field || from@ == field || body@ == field
            },
{
    proof {
        occurs_as_a_part(needle@, to@, from@, body@);
    }
    needle.is_empty() || text::str_contains(to, needle) || text::str_contains(from, needle)
        || text::str_contains(body, needle)
}

/// A filter on the inbox. Empty fields (the filter form always submits both) mean "no filter".
#[derive(Debug)]
pub struct RowsQuery {
    pub q: Option<String>,
    pub provider: Option<String>,
}

/// What a [`RowsQuery`] asks for.
pub struct RowsQueryView {
    pub q: Option<Seq<char>>,
    pub provider: Option<Seq<char>>,
}

impl View for RowsQuery {
    type V = RowsQueryView;

    open spec fn view(&self) -> RowsQueryView {
        RowsQueryView { q: text::opt_view(self.q), provider: text::opt_view(self.provider) }
    }
}

impl RowsQueryView {
    /// The text to search for, in lower case; empty if any text will do.
    pub open spec fn needle(self) -> Seq<char> {
        match self.q {
            Some(q) => text::lowercase(q),
            None => Seq::empty(),
        }
    }

    /// `m` comes from the provider that is asked for, if one is.
    pub open spec fn wants_provider(self, m: MessageView) -> bool {
        match self.provider {
            Some(p) if p.len() > 0 => m.provider == p,
            _ => true,
        }
    }

    /// The text that is searched for occurs in `to`, `from` or `body`, regardless of case.
    pub open spec fn finds(self, m: MessageView) -> bool {
        occurs(
            self.needle(),
            text::lowercase(m.to),
            text::lowercase(m.from),
            text::lowercase(m.body),
        )
    }

    /// The query selects `m`.
    pub open spec fn selects(self, m: MessageView) -> bool {
        self.wants_provider(m) && self.finds(m)
    }
}

/// The messages of `s` that the query selects, newest first.
pub open spec fn shown(s: Seq<MessageView>, query: RowsQueryView) -> Seq<MessageView> {
    newest_first(s).filter(|m: MessageView| query.selects(m))
}

/// Newest-first inbox with optional substring (`to`/`from`/`body`, case-insensitive) and provider
/// filters.
pub fn filtered(state: &AppState, q: &RowsQuery) -> (out: Vec<Message>)
    ensures
        inbox::views(out@) == shown(state@, q@),
{
    let needle = match &q.q {
        Some(wanted) => wanted.to_lowercase(),
        None => String::new(),
    };
    assert(needle@ =~= q@.needle());
    let items = listing(state);
    let ghost all = inbox::views(items@);
    let ghost wanted = |m: MessageView| q@.selects(m);
    let mut out: Vec<Message> = Vec::new();
    assert(inbox::views(out@) =~= all.take(0).filter(wanted)) by {
        reveal(Seq::filter);
    }
    for m in it: items
        invariant
            all == inbox::views(it.seq()),
            wanted == (|m: MessageView| q@.selects(m)),
            needle@ == q@.needle(),
            inbox::views(out@) == all.take(it.index()).filter(wanted),
    {
        let from_provider = match &q.provider {
            Some(provider) if !provider.as_str().is_empty() => *m.provider == *provider.as_str(),
            _ => true,
        };
        let ghost sofar = all.take(it.index());
        assert(all.take(it.index() + 1) =~= sofar.push(m@));
        proof {
            sofar.lemma_filter_push(m@, wanted);
        }
        let ghost rest = out@;
        if from_provider && occurs_in(
            &needle,
            &m.to.to_lowercase(),
            &m.from.to_lowercase(),
            &m.body.to_lowercase(),
        ) {
            out.push(m);
            assert(inbox::views(out@) =~= inbox::views(rest).push(m@));
        }
    }
    assert(all.take(all.len() as int) =~= all);
    out
}

/// A listing holds the messages of the inbox, each as often as the inbox does, and none is followed
/// by a newer one.
pub proof fn listing_is_complete(s: Seq<MessageView>)
    ensures
        newest_first(s).len() == s.len(),
        newest_first(s).to_multiset() == s.to_multiset(),
        forall|m: MessageView| #[trigger] newest_first(s).contains(m) <==> s.contains(m),
        forall|i: int, j: int|
            0 <= i < j < s.len() ==> !(#[trigger] newest_first(s)[j]).received_at.after(
                (#[trigger] newest_first(s)[i]).received_at,
            ),
{
    broadcast use vstd::seq_lib::group_to_multiset_ensures;

    let order = order_exists(s, 0);
    assert(s.skip(0) =~= s);
    assert(is_newest_first(s, picked(s, order)));
    listing_is_unique(s, picked(s, order));
    let out = newest_first(s);
    assert forall|m: MessageView| out.contains(m) <==> s.contains(m) by {
        assert(out.contains(m) <==> out.to_multiset().count(m) > 0);
        assert(s.contains(m) <==> s.to_multiset().count(m) > 0);
    }
    assert forall|i: int, j: int| 0 <= i < j < s.len() implies !(
    #[trigger] out[j]).received_at.after((#[trigger] out[i]).received_at) by {
        assert(listed_before(s, order[i], order[j]));
    }
}

/// A message that comes in is listed, with those before it that the cap leaves.
pub proof fn arrival_is_listed(s: Seq<MessageView>, m: MessageView)
    ensures
        newest_first(inbox::kept(s.push(m))).contains(m),
        s.len() < inbox::MAX_KEPT ==> forall|other: MessageView| #[trigger]
            s.contains(other) ==> newest_first(inbox::kept(s.push(m))).contains(other),
        forall|other: MessageView| #[trigger]
            newest_first(inbox::kept(s.push(m))).contains(other) ==> other == m || s.contains(
                other,
            ),
{
    let after = inbox::kept(s.push(m));
    listing_is_complete(after);
    assert(after[after.len() - 1] == m);
    if s.len() < inbox::MAX_KEPT {
        assert forall|other: MessageView| #[trigger] s.contains(other) implies newest_first(
            after,
        ).contains(other) by {
            assert(after[s.index_of(other)] == other);
        }
    }
    assert forall|other: MessageView| #[trigger] newest_first(after).contains(other) implies other
        == m || s.contains(other) by {
        assert(after.contains(other));
        let k = after.index_of(other);
        let first = s.push(m).len() - after.len();
        assert(s.push(m)[first + k] == other);
    }
}

/// A message that is newer than all before it is listed first.
pub proof fn newest_arrival_is_first(s: Seq<MessageView>, m: MessageView)
    requires
        forall|i: int| 0 <= i < s.len() ==> m.received_at.after((#[trigger] s[i]).received_at),
    ensures
        newest_first(inbox::kept(s.push(m)))[0] == m,
{
    let after = inbox::kept(s.push(m));
    listing_is_complete(after);
    arrival_is_listed(s, m);
    let out = newest_first(after);
    let k = out.index_of(m);
    if out[0] != m {
        assert(out.contains(out[0]));
        assert(s.contains(out[0]));
        let i = s.index_of(out[0]);
        assert(m.received_at.after(s[i].received_at));
        assert(!out[k].received_at.after(out[0].received_at));
    }
}

/// The rows that a query shows are the messages of the inbox that it selects, no others.
pub proof fn shown_are_the_selected(s: Seq<MessageView>, query: RowsQueryView, m: MessageView)
    ensures
        shown(s, query).contains(m) <==> s.contains(m) && query.selects(m),
{
    broadcast use vstd::seq_lib::group_filter_ensures;

    let wanted = |m: MessageView| query.selects(m);
    let all = newest_first(s);
    listing_is_complete(s);
    if shown(s, query).contains(m) {
        let k = shown(s, query).index_of(m);
        assert(wanted(all.filter(wanted)[k]));
        all.lemma_filter_contains_rev(wanted, m);
    }
    if s.contains(m) && query.selects(m) {
        assert(all.contains(m));
        let k = all.index_of(m);
        assert(wanted(all[k]));
        assert(all.filter(wanted).contains(all[k]));
    }
}

/// Rows are shown newest first, whatever the query.
pub proof fn shown_newest_first(s: Seq<MessageView>, query: RowsQueryView)
    ensures
        forall|i: int, j: int|
            0 <= i < j < shown(s, query).len() ==> !(#[trigger] shown(
                s,
                query,
            )[j]).received_at.after((#[trigger] shown(s, query)[i]).received_at),
{
    listing_is_complete(s);
    filter_keeps_order(newest_first(s), |m: MessageView| query.selects(m));
}

/// Leaving messages out does not put a newer one behind an older one.
proof fn filter_keeps_order(s: Seq<MessageView>, wanted: spec_fn(MessageView) -> bool)
    requires
        forall|i: int, j: int|
            0 <= i < j < s.len() ==> !(#[trigger] s[j]).received_at.after(
                (#[trigger] s[i]).received_at,
            ),
    ensures
        forall|i: int, j: int|
            0 <= i < j < s.filter(wanted).len() ==> !(#[trigger] s.filter(
                wanted,
            )[j]).received_at.after((#[trigger] s.filter(wanted)[i]).received_at),
    decreases s.len(),
{
    reveal(Seq::filter);
    if s.len() > 0 {
        let rest = s.drop_last();
        filter_keeps_order(rest, wanted);
        assert forall|i: int| 0 <= i < rest.filter(wanted).len() implies !s.last().received_at.after(
            (#[trigger] rest.filter(wanted)[i]).received_at,
        ) by {
            let m = rest.filter(wanted)[i];
            assert(rest.filter(wanted).contains(m));
            rest.lemma_filter_contains_rev(wanted, m);
            let k = rest.index_of(m);
            assert(s[k] == m);
        }
    }
}

/// A query whose fields are missing or empty shows the whole inbox.
pub proof fn empty_query_shows_all(s: Seq<MessageView>, query: RowsQueryView)
    requires
        query.q matches Some(q) ==> q.len() == 0,
        query.provider matches Some(p) ==> p.len() == 0,
    ensures
        shown(s, query) == newest_first(s),
{
    filter_of_all(newest_first(s), |m: MessageView| query.selects(m));
}

/// A filter that wants every message keeps them all.
proof fn filter_of_all(s: Seq<MessageView>, wanted: spec_fn(MessageView) -> bool)
    requires
        forall|m: MessageView| #[trigger] wanted(m),
    ensures
        s.filter(wanted) == s,
    decreases s.len(),
{
    reveal(Seq::filter);
    if s.len() > 0 {
        filter_of_all(s.drop_last(), wanted);
        assert(s.drop_last().push(s.last()) =~= s);
    }
}

/// The search does not depend on the case in which its text is written.
pub proof fn search_ignores_case(
    s: Seq<MessageView>,
    a: Seq<char>,
    b: Seq<char>,
    provider: Option<Seq<char>>,
)
    requires
        text::lowercase(a) == text::lowercase(b),
    ensures
        shown(s, RowsQueryView { q: Some(a), provider }) == shown(
            s,
            RowsQueryView { q: Some(b), provider },
        ),
{
    let qa = RowsQueryView { q: Some(a), provider };
    let qb = RowsQueryView { q: Some(b), provider };
    assert((|m: MessageView| qa.selects(m)) =~= (|m: MessageView| qb.selects(m)));
}

/// A message is found by its recipient, its sender or its body, in whatever case they are written.
pub proof fn search_finds_whole_text(s: Seq<MessageView>, m: MessageView, wanted: Seq<char>)
    requires
        s.contains(m),
        text::lowercase(wanted) == text::lowercase(m.to) || text::lowercase(wanted)
            == text::lowercase(m.from) || text::lowercase(wanted) == text::lowercase(m.body),
    ensures
        shown(s, RowsQueryView { q: Some(wanted), provider: None }).contains(m),
{
    let query = RowsQueryView { q: Some(wanted), provider: None };
    let t = text::lowercase(wanted);
    let start = 0int;
    assert(t.subrange(start, start + t.len()) =~= t);
    assert(text::has_substring(t, t));
    shown_are_the_selected(s, query, m);
}

/// Inserting a message adds it to what a filter keeps exactly if the filter wants it.
proof fn filter_len_insert(
    s: Seq<MessageView>,
    at: int,
    m: MessageView,
    wanted: spec_fn(MessageView) -> bool,
)
    requires
        0 <= at <= s.len(),
    ensures
        s.insert(at, m).filter(wanted).len() == s.filter(wanted).len() + (if wanted(m) {
            1int
        } else {
            0int
        }),
{
    let left = s.take(at);
    let right = s.skip(at);
    assert(s =~= left + right);
    assert(s.insert(at, m) =~= left.push(m) + right);
    Seq::filter_distributes_over_add(left, right, wanted);
    Seq::filter_distributes_over_add(left.push(m), right, wanted);
    left.lemma_filter_len_push(wanted, m);
}

/// A filter keeps as many messages of one sequence as of another with the same messages.
proof fn filter_len_by_multiset(
    a: Seq<MessageView>,
    b: Seq<MessageView>,
    wanted: spec_fn(MessageView) -> bool,
)
    requires
        a.to_multiset() == b.to_multiset(),
    ensures
        a.filter(wanted).len() == b.filter(wanted).len(),
    decreases a.len(),
{
    broadcast use vstd::seq_lib::group_to_multiset_ensures;

    reveal(Seq::filter);
    assert(a.len() == a.to_multiset().len());
    assert(b.len() == b.to_multiset().len());
    if a.len() > 0 {
        let m = a.last();
        assert(a.contains(m));
        assert(b.to_multiset().count(m) > 0);
        let at = b.index_of(m);
        let rest = b.remove(at);
        assert(b =~= rest.insert(at, m));
        assert(a =~= a.drop_last().push(m));
        assert(a.drop_last() =~= a.remove(a.len() - 1));
        filter_len_by_multiset(a.drop_last(), rest, wanted);
        filter_len_insert(rest, at, m, wanted);
    }
}

/// A query by provider alone shows as many rows as there are messages from that provider.
pub proof fn shown_by_provider(s: Seq<MessageView>, provider: Seq<char>)
    requires
        provider.len() > 0,
    ensures
        shown(s, RowsQueryView { q: None, provider: Some(provider) }).len() == s.filter(
            |m: MessageView| m.provider == provider,
        ).len(),
{
    let query = RowsQueryView { q: None, provider: Some(provider) };
    let wanted = |m: MessageView| query.selects(m);
    assert(wanted =~= (|m: MessageView| m.provider == provider));
    listing_is_complete(s);
    filter_len_by_multiset(newest_first(s), s, wanted);
}

/// From the top of a listing downwards the clock never goes forward: each message is of a later
/// second than the next, or of the same second with no fewer nanoseconds.
pub proof fn listing_follows_the_clock(s: Seq<MessageView>, i: int, j: int)
    requires
        0 <= i < j < newest_first(s).len(),
    ensures
        ({
            let upper = newest_first(s)[i].received_at;
            let lower = newest_first(s)[j].received_at;
            upper.secs > lower.secs || (upper.secs == lower.secs && upper.nanos >= lower.nanos)
        }),
{
    listing_is_complete(s);
    assert(!newest_first(s)[j].received_at.after(newest_first(s)[i].received_at));
}

/// The messages of one moment are listed in the order in which they arrived.
pub proof fn listing_is_stable(s: Seq<MessageView>, t: Moment)
    ensures
        newest_first(s).filter(|m: MessageView| m.received_at == t) == s.filter(
            |m: MessageView| m.received_at == t,
        ),
{
    let order = order_exists(s, 0);
    assert(s.skip(0) =~= s);
    assert(is_newest_first(s, picked(s, order)));
    listing_is_unique(s, picked(s, order));
    assert(of_moment(picked(s, order), t) == of_moment(s, t));
}

/// Two filters can be applied in either order.
proof fn filters_commute(
    s: Seq<MessageView>,
    a: spec_fn(MessageView) -> bool,
    b: spec_fn(MessageView) -> bool,
)
    ensures
        s.filter(a).filter(b) == s.filter(b).filter(a),
    decreases s.len(),
{
    reveal(Seq::filter);
    if s.len() > 0 {
        let rest = s.drop_last();
        filters_commute(rest, a, b);
        rest.filter(a).lemma_filter_push(s.last(), b);
        rest.filter(b).lemma_filter_push(s.last(), a);
    }
}

/// The rows of one moment are those of its messages that the query selects, in the order in which
/// they arrived, and the rows follow the clock backwards.
pub proof fn shown_is_ordered(s: Seq<MessageView>, query: RowsQueryView, t: Moment, i: int, j: int)
    ensures
        shown(s, query).filter(|m: MessageView| m.received_at == t) == s.filter(
            |m: MessageView| m.received_at == t,
        ).filter(|m: MessageView| query.selects(m)),
        0 <= i < j < shown(s, query).len() ==> ({
            let upper = shown(s, query)[i].received_at;
            let lower = shown(s, query)[j].received_at;
            upper.secs > lower.secs || (upper.secs == lower.secs && upper.nanos >= lower.nanos)
        }),
{
    filters_commute(
        newest_first(s),
        |m: MessageView| query.selects(m),
        |m: MessageView| m.received_at == t,
    );
    listing_is_stable(s, t);
    shown_newest_first(s, query);
    if 0 <= i < j < shown(s, query).len() {
        assert(!shown(s, query)[j].received_at.after(shown(s, query)[i].received_at));
    }
}

/// A filter keeps every copy of a message that it wants, and none of one that it does not.
proof fn filter_count(s: Seq<MessageView>, wanted: spec_fn(MessageView) -> bool, m: MessageView)
    ensures
        s.filter(wanted).to_multiset().count(m) == if wanted(m) {
            s.to_multiset().count(m)
        } else {
            0
        },
    decreases s.len(),
{
    broadcast use vstd::seq_lib::group_to_multiset_ensures;

    reveal(Seq::filter);
    if s.len() > 0 {
        let rest = s.drop_last();
        filter_count(rest, wanted, m);
        assert(s =~= rest.push(s.last()));
        rest.lemma_filter_push(s.last(), wanted);
    } else {
        assert(!s.contains(m));
        assert(!s.filter(wanted).contains(m));
    }
}

/// Each message that a query selects is shown as often as the inbox holds it, and no other is shown.
pub proof fn shown_as_often_as_held(s: Seq<MessageView>, query: RowsQueryView, m: MessageView)
    ensures
        shown(s, query).to_multiset().count(m) == if query.selects(m) {
            s.to_multiset().count(m)
        } else {
            0
        },
{
    listing_is_complete(s);
    filter_count(newest_first(s), |m: MessageView| query.selects(m), m);
}

/// Whatever stands in a message's recipient, sender or body finds the message, wherever in the field
/// it stands and whatever stands around it, in any case.
pub proof fn search_finds_any_part(
    s: Seq<MessageView>,
    m: MessageView,
    q: Seq<char>,
    before: Seq<char>,
    after: Seq<char>,
)
    requires
        s.contains(m),
        ({
            let field = before + text::lowercase(q) + after;
            text::lowercase(m.to) == field || text::lowercase(m.from) == field || text::lowercase(
                m.body,
            ) == field
        }),
    ensures
        shown(s, RowsQueryView { q: Some(q), provider: None }).contains(m),
{
    let query = RowsQueryView { q: Some(q), provider: None };
    text::substring_between(before, text::lowercase(q), after);
    shown_are_the_selected(s, query, m);
}

/// What a search shows has the text in its recipient, sender or body.
pub proof fn search_shows_only_matches(
    s: Seq<MessageView>,
    m: MessageView,
    q: Seq<char>,
    provider: Option<Seq<char>>,
)
    requires
        shown(s, RowsQueryView { q: Some(q), provider }).contains(m),
    ensures
        s.contains(m),
        exists|before: Seq<char>, after: Seq<char>|
            {
                let field = #[trigger] (before + text::lowercase(q) + after);
                text::lowercase(m.to) == field || text::lowercase(m.from) == field
                    || text::lowercase(m.body) == field
            },
{
    let query = RowsQueryView { q: Some(q), provider };
    shown_are_the_selected(s, query, m);
    occurs_as_a_part(
        text::lowercase(q),
        text::lowercase(m.to),
        text::lowercase(m.from),
        text::lowercase(m.body),
    );
}

/// Asking for a provider besides leaves exactly the rows of that provider, of those that the search
/// alone shows.
pub proof fn provider_narrows_the_search(
    s: Seq<MessageView>,
    m: MessageView,
    q: Option<Seq<char>>,
    provider: Seq<char>,
)
    ensures
        provider.len() > 0 ==> (shown(s, RowsQueryView { q, provider: Some(provider) }).contains(m)
            <==> shown(s, RowsQueryView { q, provider: None }).contains(m) && m.provider
            == provider),
        provider.len() == 0 ==> (shown(s, RowsQueryView { q, provider: Some(provider) }).contains(m)
            <==> shown(s, RowsQueryView { q, provider: None }).contains(m)),
{
    shown_are_the_selected(s, RowsQueryView { q, provider: Some(provider) }, m);
    shown_are_the_selected(s, RowsQueryView { q, provider: None }, m);
}

/// A search for nothing is no search.
pub proof fn searching_for_nothing(s: Seq<MessageView>, provider: Option<Seq<char>>)
    ensures
        shown(s, RowsQueryView { q: Some(Seq::empty()), provider }) == shown(
            s,
            RowsQueryView { q: None, provider },
        ),
{
    let a = RowsQueryView { q: Some(Seq::empty()), provider };
    let b = RowsQueryView { q: None, provider };
    assert((|m: MessageView| a.selects(m)) =~= (|m: MessageView| b.selects(m)));
}

/// A query asks for what its fields say.
pub proof fn query_view_leaves_nothing_out(query: RowsQuery)
    ensures
        query.q is None <==> query@.q is None,
        query.q matches Some(q) ==> query@.q == Some(q@),
        query.provider is None <==> query@.provider is None,
        query.provider matches Some(p) ==> query@.provider == Some(p@),
{
}

} // verus!
