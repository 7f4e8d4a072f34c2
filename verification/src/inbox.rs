//! Messages, and the bounded inbox that keeps them.

use vstd::prelude::*;

use crate::clock::{Moment, Timestamp};
use crate::ident;

verus! {

/// Inbox cap: newest wins, oldest evicted (ephemeral dev store).
pub const MAX_KEPT: usize = 1000;

/// A received message.
#[derive(Debug)]
pub struct Message {
    /// The number of the message's UUID.
    pub id: u128,
    pub to: String,
    pub from: String,
    pub body: String,
    /// The shape of the request that brought the message.
    pub provider: &'static str,
    pub sid: String,
    pub received_at: Timestamp,
}

/// What a [`Message`] holds.
pub struct MessageView {
    pub id: u128,
    pub to: Seq<char>,
    pub from: Seq<char>,
    pub body: Seq<char>,
    pub provider: Seq<char>,
    pub sid: Seq<char>,
    pub received_at: Moment,
}

impl View for Message {
    type V = MessageView;

    open spec fn view(&self) -> MessageView {
        MessageView {
            id: self.id,
            to: self.to@,
            from: self.from@,
            body: self.body@,
            provider: self.provider@,
            sid: self.sid@,
            received_at: self.received_at@,
        }
    }
}

impl Clone for Message {
    fn clone(&self) -> (res: Self)
        ensures
            res@ == self@,
            res.id == self.id,
            res.to@ == self.to@,
            res.from@ == self.from@,
            res.body@ == self.body@,
            res.provider@ == self.provider@,
            res.sid@ == self.sid@,
            res.received_at@ == self.received_at@,
    {
        Message {
            id: self.id,
            to: self.to.clone(),
            from: self.from.clone(),
            body: self.body.clone(),
            provider: self.provider,
            sid: self.sid.clone(),
            received_at: self.received_at,
        }
    }
}

/// What the messages of a sequence hold, in the same order.
pub open spec fn views(messages: Seq<Message>) -> Seq<MessageView> {
    messages.map_values(|m: Message| m@)
}

/// The messages that the server has kept, in the order of their arrival.
#[derive(Debug)]
pub struct AppState {
    pub inbox: Vec<Message>,
}

impl View for AppState {
    type V = Seq<MessageView>;

    open spec fn view(&self) -> Seq<MessageView> {
        views(self.inbox@)
    }
}

impl AppState {
    /// The inbox holds no more messages than its cap.
    pub open spec fn wf(self) -> bool {
        self@.len() <= MAX_KEPT
    }

    /// An empty inbox.
    pub fn new() -> (state: AppState)
        ensures
            state@ == Seq::<MessageView>::empty(),
            state.wf(),
            known_providers(state@),
            state.inbox@.len() == 0,
    {
        let state = AppState { inbox: Vec::new() };
        assert(state@ =~= Seq::<MessageView>::empty());
        state
    }

    /// Adds `msg` as the newest arrival, and evicts the oldest ones beyond the cap.
    pub fn keep(&mut self, msg: Message)
        ensures
            final(self)@ == kept(old(self)@.push(msg@)),
            final(self).wf(),
            final(self).inbox@.len() == (if old(self).inbox@.len() < 1000 {
                old(self).inbox@.len() + 1
            } else {
                1000
            }),
            final(self).inbox@.last() == msg,
            forall|i: int|
                0 <= i < final(self).inbox@.len() - 1 ==> #[trigger] final(self).inbox@[i]
                    == old(self).inbox@[old(self).inbox@.len() - final(self).inbox@.len() + 1 + i],
    {
        self.inbox.push(msg);
        let excess: usize = self.inbox.len().saturating_sub(MAX_KEPT);
        if excess > 0 {
            self.inbox = self.inbox.split_off(excess);
        }
        assert(self@ =~= kept(old(self)@.push(msg@)));
    }

    /// Removes every message.
    pub fn clear(&mut self)
        ensures
            final(self)@ == Seq::<MessageView>::empty(),
            final(self).wf(),
            final(self).inbox@.len() == 0,
    {
        self.inbox.clear();
        assert(self@ =~= Seq::<MessageView>::empty());
    }
}

/// `after` has one message more than `before`, at the end. The others are the last ones of `before`
/// in their order: all of them, or the last 999 once there are 1000 messages.
pub open spec fn grown_by_one(before: Seq<Message>, after: Seq<Message>) -> bool {
    &&& after.len() == if before.len() < 1000 {
        before.len() + 1
    } else {
        1000
    }
    &&& forall|i: int|
        0 <= i < after.len() - 1 ==> #[trigger] after[i] == before[before.len() - after.len() + 1
            + i]
}

/// What the cap leaves of `s`: the last [`MAX_KEPT`] messages, or all if there are no more.
pub open spec fn kept(s: Seq<MessageView>) -> Seq<MessageView> {
    if s.len() <= MAX_KEPT {
        s
    } else {
        s.skip(s.len() - MAX_KEPT)
    }
}

/// `m` is a message as it arrives: with the given content, a random UUID, a SID and a moment of
/// arrival.
pub open spec fn is_arrival(
    m: MessageView,
    to: Seq<char>,
    from: Seq<char>,
    body: Seq<char>,
    provider: Seq<char>,
) -> bool {
    &&& m.to == to
    &&& m.from == from
    &&& m.body == body
    &&& m.provider == provider
    &&& ident::is_random_uuid(m.id)
    &&& ident::is_sid(m.sid)
    &&& m.received_at.valid()
}

/// The message with the given identifier, SID, moment of arrival and content.
pub fn message_with(
    id: u128,
    sid: String,
    received_at: Timestamp,
    to: String,
    from: String,
    body: String,
    provider: &'static str,
) -> (msg: Message)
    ensures
        msg@ == (MessageView {
            id,
            to: to@,
            from: from@,
            body: body@,
            provider: provider@,
            sid: sid@,
            received_at: received_at@,
        }),
        msg.id == id,
        msg.to@ == to@,
        msg.from@ == from@,
        msg.body@ == body@,
        msg.provider@ == provider@,
        msg.sid@ == sid@,
        msg.received_at@ == received_at@,
{
    Message { id, to, from, body, provider, sid, received_at }
}

/// A message that arrives now, with an identifier and a SID of its own.
pub fn new_message(to: String, from: String, body: String, provider: &'static str) -> (msg: Message)
    ensures
        is_arrival(msg@, to@, from@, body@, provider@),
        msg.to@ == to@,
        msg.from@ == from@,
        msg.body@ == body@,
        msg.provider@ == provider@,
{
    let id: u128 = ident::new_uuid();
    let sid = ident::new_sid();
    message_with(id, sid, Timestamp::now(), to, from, body, provider)
}

/// Receives a message: keeps it in the inbox and gives it back.
pub fn store(
    state: &mut AppState,
    to: String,
    from: String,
    body: String,
    provider: &'static str,
) -> (msg: Message)
    ensures
        is_arrival(msg@, to@, from@, body@, provider@),
        final(state)@ == kept(old(state)@.push(msg@)),
        final(state).wf(),
        msg.to@ == to@,
        msg.from@ == from@,
        msg.body@ == body@,
        msg.provider@ == provider@,
        final(state).inbox@.last().id == msg.id,
        final(state).inbox@.last().to@ == to@,
        final(state).inbox@.last().from@ == from@,
        final(state).inbox@.last().body@ == body@,
        final(state).inbox@.last().provider@ == provider@,
        final(state).inbox@.last().sid@ == msg.sid@,
        final(state).inbox@.last().received_at@ == msg.received_at@,
        grown_by_one(old(state).inbox@, final(state).inbox@),
{
    let msg = new_message(to, from, body, provider);
    state.keep(msg.clone());
    msg
}

/// `m` comes from one of the providers that the server has: `twilio` or `custom`.
pub open spec fn known_provider(m: MessageView) -> bool {
    m.provider == "twilio"@ || m.provider == "custom"@
}

/// The messages of `s` all come from the providers that the server has.
pub open spec fn known_providers(s: Seq<MessageView>) -> bool {
    forall|i: int| 0 <= i < s.len() ==> known_provider(#[trigger] s[i])
}

/// What the inbox holds after the messages `arrived` came in, one after the other.
pub open spec fn after_arrivals(s: Seq<MessageView>, arrived: Seq<MessageView>) -> Seq<MessageView>
    decreases arrived.len(),
{
    if arrived.len() == 0 {
        s
    } else {
        kept(after_arrivals(s, arrived.drop_last()).push(arrived.last()))
    }
}

/// Newest wins, oldest evicted: however many messages come in, the inbox holds the last ones up to
/// its cap, in the order of their arrival.
pub proof fn newest_wins(s: Seq<MessageView>, arrived: Seq<MessageView>)
    requires
        s.len() <= MAX_KEPT,
    ensures
        after_arrivals(s, arrived) == kept(s + arrived),
        after_arrivals(s, arrived).len() <= MAX_KEPT,
    decreases arrived.len(),
{
    if arrived.len() == 0 {
        assert(s + arrived =~= s);
    } else {
        let before = arrived.drop_last();
        newest_wins(s, before);
        assert(s + arrived =~= (s + before).push(arrived.last()));
        assert(kept(kept(s + before).push(arrived.last())) =~= kept(s + arrived));
    }
}

/// An inbox that starts empty, and into which messages of the server's providers come, holds no
/// others, however many come.
pub proof fn history_has_known_providers(arrived: Seq<MessageView>)
    requires
        known_providers(arrived),
    ensures
        known_providers(after_arrivals(Seq::empty(), arrived)),
{
    newest_wins(Seq::empty(), arrived);
    assert(Seq::empty() + arrived =~= arrived);
}

/// The cap of 1000 leaves the end of an inbox: nothing of it is lost up to 1000 messages, and
/// exactly its last 1000 stay beyond, each in its order.
pub proof fn cap_leaves_the_end(s: Seq<MessageView>)
    ensures
        s.len() <= 1000 ==> kept(s) == s,
        s.len() > 1000 ==> kept(s).len() == 1000,
        forall|i: int|
            0 <= i < kept(s).len() ==> #[trigger] kept(s)[i] == s[s.len() - kept(s).len() + i],
        exists|evicted: Seq<MessageView>| s == #[trigger] (evicted + kept(s)),
{
    let evicted = s.take(s.len() - kept(s).len());
    assert(s =~= evicted + kept(s));
}

/// A message arrives with the very texts that it was sent with, whatever they are.
pub proof fn arrival_keeps_its_texts(
    m: MessageView,
    to: Seq<char>,
    from: Seq<char>,
    body: Seq<char>,
    provider: Seq<char>,
)
    requires
        is_arrival(m, to, from, body, provider),
    ensures
        m.to == to,
        m.from == from,
        m.body == body,
        m.provider == provider,
        ident::is_sid(m.sid),
        ident::is_random_uuid(m.id),
{
}

/// Any message with the content, an identifier, a SID and a moment can be the one that arrives.
pub proof fn nothing_else_decides_an_arrival(m: MessageView)
    requires
        ident::is_random_uuid(m.id),
        ident::is_sid(m.sid),
        m.received_at.valid(),
    ensures
        is_arrival(m, m.to, m.from, m.body, m.provider),
{
}

/// What a message holds is what its fields hold, and what an inbox holds is what its messages hold.
pub proof fn views_leave_nothing_out(m: Message, state: AppState, i: int)
    ensures
        m@.id == m.id,
        m@.to == m.to@,
        m@.from == m.from@,
        m@.body == m.body@,
        m@.provider == m.provider@,
        m@.sid == m.sid@,
        m@.received_at == m.received_at@,
        state@.len() == state.inbox@.len(),
        0 <= i < state.inbox@.len() ==> state@[i] == state.inbox@[i]@,
{
}

} // verus!
