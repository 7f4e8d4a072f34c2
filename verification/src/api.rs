//! The requests that the server answers, and its replies.

use vstd::prelude::*;

use crate::html;
use crate::inbox;
use crate::inbox::{AppState, Message, MessageView};
use crate::listing;
use crate::listing::RowsQueryView;
use crate::text;

verus! {

/// A message in the shape of Twilio's form.
#[derive(Debug)]
pub struct TwilioForm {
    pub to: String,
    pub from: String,
    pub body: String,
}

/// A message in the shape of the custom bridge.
#[derive(Debug)]
pub struct CustomBody {
    pub to: String,
    pub body: String,
    pub sender: Option<String>,
}

/// A reply: an HTTP status, and a JSON object of strings.
#[derive(Debug)]
pub struct Reply {
    pub status: u16,
    pub fields: Vec<(&'static str, String)>,
}

/// What a [`Reply`] says.
pub struct ReplyView {
    pub status: int,
    pub fields: Seq<(Seq<char>, Seq<char>)>,
}

impl View for Reply {
    type V = ReplyView;

    open spec fn view(&self) -> ReplyView {
        ReplyView {
            status: self.status as int,
            fields: self.fields@.map_values(|f: (&'static str, String)| (f.0@, f.1@)),
        }
    }
}

/// The status of a reply to an accepted message.
pub const CREATED: u16 = 201;

/// The status of a reply to a message that is refused.
pub const BAD_REQUEST: u16 = 400;

/// The reply to an accepted message in Twilio's shape.
pub open spec fn twilio_accepted(m: MessageView) -> ReplyView {
    ReplyView {
        status: CREATED as int,
        fields: seq![
            ("sid"@, m.sid),
            ("status"@, "queued"@),
            ("to"@, m.to),
            ("from"@, m.from),
        ],
    }
}

/// The reply to an accepted message in the custom shape.
pub open spec fn custom_accepted(m: MessageView) -> ReplyView {
    ReplyView {
        status: CREATED as int,
        fields: seq![("sid"@, m.sid), ("status"@, "queued"@)],
    }
}

/// The reply to a message in the custom shape that lacks a recipient or a body.
pub open spec fn custom_refused() -> ReplyView {
    ReplyView {
        status: BAD_REQUEST as int,
        fields: seq![("error"@, "to and body are required"@)],
    }
}

/// The reply to `msg`, accepted in Twilio's shape.
pub fn twilio_reply(msg: Message) -> (reply: Reply)
    ensures
        reply@ == twilio_accepted(msg@),
        reply.status == 201,
        reply.fields@.len() == 4,
        reply.fields@[0].0@ == "sid"@ && reply.fields@[0].1@ == msg.sid@,
        reply.fields@[1].0@ == "status"@ && reply.fields@[1].1@ == "queued"@,
        reply.fields@[2].0@ == "to"@ && reply.fields@[2].1@ == msg.to@,
        reply.fields@[3].0@ == "from"@ && reply.fields@[3].1@ == msg.from@,
{
    let reply = Reply {
        status: CREATED,
        fields: vec![
            ("sid", msg.sid),
            ("status", "queued".to_string()),
            ("to", msg.to),
            ("from", msg.from),
        ],
    };
    assert(reply@.fields =~= twilio_accepted(msg@).fields);
    reply
}

/// The reply to `msg`, accepted in the custom shape.
pub fn custom_reply(msg: Message) -> (reply: Reply)
    ensures
        reply@ == custom_accepted(msg@),
        reply.status == 201,
        reply.fields@.len() == 2,
        reply.fields@[0].0@ == "sid"@ && reply.fields@[0].1@ == msg.sid@,
        reply.fields@[1].0@ == "status"@ && reply.fields@[1].1@ == "queued"@,
{
    let reply = Reply {
        status: CREATED,
        fields: vec![("sid", msg.sid), ("status", "queued".to_string())],
    };
    assert(reply@.fields =~= custom_accepted(msg@).fields);
    reply
}

/// The newest arrival of `after` has the given content, and is what it has more than `before`, up
/// to the messages that the cap evicts.
pub open spec fn received(
    before: Seq<MessageView>,
    after: Seq<MessageView>,
    to: Seq<char>,
    from: Seq<char>,
    body: Seq<char>,
    provider: Seq<char>,
) -> bool {
    &&& inbox::is_arrival(after.last(), to, from, body, provider)
    &&& after == inbox::kept(before.push(after.last()))
}

/// Receiving a message of one of the server's providers leaves the inbox with messages of those
/// providers alone, if it had no others before.
pub proof fn received_keeps_providers_known(
    before: Seq<MessageView>,
    after: Seq<MessageView>,
    to: Seq<char>,
    from: Seq<char>,
    body: Seq<char>,
    provider: Seq<char>,
)
    requires
        inbox::known_providers(before),
        received(before, after, to, from, body, provider),
        provider == "twilio"@ || provider == "custom"@,
    ensures
        inbox::known_providers(after),
{
    let all = before.push(after.last());
    assert forall|i: int| 0 <= i < all.len() implies inbox::known_provider(#[trigger] all[i]) by {
        if i < before.len() {
            assert(inbox::known_provider(before[i]));
        }
    }
    assert forall|i: int| 0 <= i < after.len() implies inbox::known_provider(
        #[trigger] after[i],
    ) by {
        assert(inbox::known_provider(all[all.len() - after.len() + i]));
    }
}

/// Receives a message in Twilio's shape.
pub fn twilio_receive(state: &mut AppState, form: TwilioForm) -> (reply: Reply)
    ensures
        received(old(state)@, final(state)@, form.to@, form.from@, form.body@, "twilio"@),
        reply@ == twilio_accepted(final(state)@.last()),
        final(state).wf(),
        inbox::known_providers(old(state)@) ==> inbox::known_providers(final(state)@),
        inbox::grown_by_one(old(state).inbox@, final(state).inbox@),
        final(state).inbox@.last().to@ == form.to@,
        final(state).inbox@.last().from@ == form.from@,
        final(state).inbox@.last().body@ == form.body@,
        final(state).inbox@.last().provider@ == "twilio"@,
        reply.status == 201,
        reply.fields@.len() == 4,
        reply.fields@[0].0@ == "sid"@ && reply.fields@[0].1@
            == final(state).inbox@.last().sid@,
        reply.fields@[1].0@ == "status"@ && reply.fields@[1].1@ == "queued"@,
        reply.fields@[2].0@ == "to"@ && reply.fields@[2].1@ == form.to@,
        reply.fields@[3].0@ == "from"@ && reply.fields@[3].1@ == form.from@,
{
    let msg = inbox::store(state, form.to, form.from, form.body, "twilio");
    assert(state@.last() == msg@);
    proof {
        if inbox::known_providers(old(state)@) {
            received_keeps_providers_known(
                old(state)@,
                state@,
                form.to@,
                form.from@,
                form.body@,
                "twilio"@,
            );
        }
    }
    twilio_reply(msg)
}

/// A message that was received is in the listing, with the content it was sent with, and no message
/// leaves the listing on its account while the inbox is below its cap.
pub proof fn received_is_listed(
    before: Seq<MessageView>,
    after: Seq<MessageView>,
    to: Seq<char>,
    from: Seq<char>,
    body: Seq<char>,
    provider: Seq<char>,
)
    requires
        received(before, after, to, from, body, provider),
    ensures
        exists|m: MessageView|
            inbox::is_arrival(m, to, from, body, provider) && #[trigger] listing::newest_first(
                after,
            ).contains(m),
        before.len() < inbox::MAX_KEPT ==> after.len() == before.len() + 1,
        before.len() < inbox::MAX_KEPT ==> forall|m: MessageView| #[trigger]
            listing::newest_first(before).contains(m) ==> listing::newest_first(after).contains(m),
{
    let m = after.last();
    listing::arrival_is_listed(before, m);
    listing::listing_is_complete(before);
    assert(listing::newest_first(after).contains(m));
}

/// A message that was received has its row in the web inbox as it first loads, without filters.
pub proof fn received_is_shown(
    before: Seq<MessageView>,
    after: Seq<MessageView>,
    to: Seq<char>,
    from: Seq<char>,
    body: Seq<char>,
    provider: Seq<char>,
    query: RowsQueryView,
)
    requires
        received(before, after, to, from, body, provider),
        query.q matches Some(q) ==> q.len() == 0,
        query.provider matches Some(p) ==> p.len() == 0,
    ensures
        text::has_substring(
            html::table_text(listing::shown(after, query)),
            html::row_text(after.last(), html::arrival_text(after.last())),
        ),
{
    assert(after[after.len() - 1] == after.last());
    html::selected_message_is_shown(after, query, after.last());
}

/// Who a message in the custom shape is from: its sender, or `1KM` if it names none.
pub open spec fn sender_or_default(sender: Option<Seq<char>>) -> Seq<char> {
    match sender {
        Some(s) => s,
        None => "1KM"@,
    }
}

/// Receives a message in the custom shape. One without a recipient or a body is refused.
pub fn custom_receive(state: &mut AppState, input: CustomBody) -> (reply: Reply)
    ensures
        text::blank(input.to@) || text::blank(input.body@) ==> {
            &&& reply@ == custom_refused()
            &&& *final(state) == *old(state)
        },
        !text::blank(input.to@) && !text::blank(input.body@) ==> {
            &&& received(
                old(state)@,
                final(state)@,
                input.to@,
                sender_or_default(text::opt_view(input.sender)),
                input.body@,
                "custom"@,
            )
            &&& reply@ == custom_accepted(final(state)@.last())
            &&& final(state).wf()
        },
        inbox::known_providers(old(state)@) ==> inbox::known_providers(final(state)@),
        text::blank(input.to@) || text::blank(input.body@) ==> {
            &&& reply.status == 400
            &&& reply.fields@.len() == 1
            &&& reply.fields@[0].0@ == "error"@
            &&& reply.fields@[0].1@ == "to and body are required"@
        },
        !text::blank(input.to@) && !text::blank(input.body@) ==> {
            &&& inbox::grown_by_one(old(state).inbox@, final(state).inbox@)
            &&& final(state).inbox@.last().to@ == input.to@
            &&& final(state).inbox@.last().from@ == (match input.sender {
                Some(sender) => sender@,
                None => "1KM"@,
            })
            &&& final(state).inbox@.last().body@ == input.body@
            &&& final(state).inbox@.last().provider@ == "custom"@
            &&& reply.status == 201
            &&& reply.fields@.len() == 2
            &&& reply.fields@[0].0@ == "sid"@
            &&& reply.fields@[0].1@ == final(state).inbox@.last().sid@
            &&& reply.fields@[1].0@ == "status"@
            &&& reply.fields@[1].1@ == "queued"@
        },
{
    if text::is_blank(&input.to) || text::is_blank(&input.body) {
        let reply = Reply {
            status: BAD_REQUEST,
            fields: vec![("error", "to and body are required".to_string())],
        };
        assert(reply@.fields =~= custom_refused().fields);
        return reply;
    }
    let from = match input.sender {
        Some(sender) => sender,
        None => "1KM".to_string(),
    };
    let ghost sender = from@;
    let msg = inbox::store(state, input.to, from, input.body, "custom");
    assert(state@.last() == msg@);
    proof {
        if inbox::known_providers(old(state)@) {
            received_keeps_providers_known(
                old(state)@,
                state@,
                input.to@,
                sender,
                input.body@,
                "custom"@,
            );
        }
    }
    custom_reply(msg)
}

/// The inbox as it is listed, and how many messages it holds.
#[derive(Debug)]
pub struct Listing {
    pub data: Vec<Message>,
    pub total: usize,
}

/// Lists the inbox, newest first.
pub fn messages(state: &AppState) -> (res: Listing)
    ensures
        inbox::views(res.data@) == listing::newest_first(state@),
        listing::is_newest_first(state@, inbox::views(res.data@)),
        res.total == state@.len(),
        res.total == state.inbox@.len(),
        res.data@.len() == state.inbox@.len(),
        inbox::views(res.data@).to_multiset() == state@.to_multiset(),
        forall|i: int, j: int|
            0 <= i < j < res.data@.len() ==> {
                let upper = (#[trigger] res.data@[i]).received_at@;
                let lower = (#[trigger] res.data@[j]).received_at@;
                upper.secs > lower.secs || (upper.secs == lower.secs && upper.nanos
                    >= lower.nanos)
            },
{
    let data = listing::listing(state);
    let total: usize = data.len();
    assert(inbox::views(data@).len() == total);
    proof {
        listing::listing_is_complete(state@);
        assert forall|i: int, j: int| 0 <= i < j < data@.len() implies {
            let upper = (#[trigger] data@[i]).received_at@;
            let lower = (#[trigger] data@[j]).received_at@;
            upper.secs > lower.secs || (upper.secs == lower.secs && upper.nanos >= lower.nanos)
        } by {
            listing::listing_follows_the_clock(state@, i, j);
            assert(inbox::views(data@)[i] == data@[i]@);
            assert(inbox::views(data@)[j] == data@[j]@);
        }
    }
    Listing { data, total }
}

/// Tells that the server is alive.
pub fn healthz() -> (ok: bool)
    ensures
        ok,
{
    true
}

/// Every message in Twilio's shape is answered with 201 and the same four fields: the SID, the
/// status `queued`, the recipient and the sender. Nothing else of the message decides the reply.
pub proof fn twilio_is_always_queued(m: MessageView, other: MessageView)
    ensures
        twilio_accepted(m).status == 201,
        twilio_accepted(m).fields.len() == 4,
        twilio_accepted(m).fields[0] == ("sid"@, m.sid),
        twilio_accepted(m).fields[1] == ("status"@, "queued"@),
        twilio_accepted(m).fields[2] == ("to"@, m.to),
        twilio_accepted(m).fields[3] == ("from"@, m.from),
        m.sid == other.sid && m.to == other.to && m.from == other.from ==> twilio_accepted(m)
            == twilio_accepted(other),
{
}

/// Every accepted message in the custom shape is answered with 201, its SID and the status
/// `queued`; nothing but the SID decides the reply. A refused one is answered with 400 and an error.
pub proof fn custom_is_queued_or_refused(m: MessageView, other: MessageView)
    ensures
        custom_accepted(m).status == 201,
        custom_accepted(m).fields.len() == 2,
        custom_accepted(m).fields[0] == ("sid"@, m.sid),
        custom_accepted(m).fields[1] == ("status"@, "queued"@),
        m.sid == other.sid ==> custom_accepted(m) == custom_accepted(other),
        custom_refused().status == 400,
        custom_refused().fields.len() == 1,
        custom_refused().fields[0] == ("error"@, "to and body are required"@),
{
}

/// A sender is kept letter for letter, whatever it is, so different senders stay different; a
/// message without one is from `1KM`.
pub proof fn sender_is_kept(a: Seq<char>, b: Seq<char>)
    ensures
        sender_or_default(Some(a)) == a,
        sender_or_default(None) == "1KM"@,
        sender_or_default(Some(a)) == sender_or_default(Some(b)) ==> a == b,
{
}

/// A message that was received is the last of the inbox, with the very texts that it was sent with.
/// Those before it stay, in their order, but for the oldest where the inbox held 1000 messages.
pub proof fn received_is_last(
    before: Seq<MessageView>,
    after: Seq<MessageView>,
    to: Seq<char>,
    from: Seq<char>,
    body: Seq<char>,
    provider: Seq<char>,
)
    requires
        received(before, after, to, from, body, provider),
    ensures
        after.last().to == to,
        after.last().from == from,
        after.last().body == body,
        after.last().provider == provider,
        before.len() < 1000 ==> after.drop_last() == before,
        before.len() == 1000 ==> after.drop_last() == before.drop_first(),
        before.len() >= 1000 ==> after.len() == 1000,
{
    if before.len() < 1000 {
        assert(after.drop_last() =~= before);
    } else if before.len() == 1000 {
        assert(after.drop_last() =~= before.drop_first());
    }
}

/// A reply says what its fields hold.
pub proof fn reply_view_leaves_nothing_out(reply: Reply, i: int)
    ensures
        reply@.status == reply.status,
        reply@.fields.len() == reply.fields@.len(),
        0 <= i < reply.fields@.len() ==> reply@.fields[i] == (
            reply.fields@[i].0@,
            reply.fields@[i].1@,
        ),
{
}

} // verus!
