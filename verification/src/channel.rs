//! The chat channel that carries the polls.

use vstd::prelude::*;
use vstd::string::StringExecFns;

use crate::error::discord_error;
use crate::error::failure;
use crate::error::Error;
use crate::error::ErrorKind;
use crate::model::lemma_views_push;
use crate::model::views;

verus! {

/// The two opposite markers of a poll.
#[derive(Debug, Clone, Copy, PartialEq, Eq, Structural)]
pub enum Marker {
    Accept,
    Decline,
}

/// One message of the channel, with the markers attached to it and the chat
/// identities that stand behind each marker, in the order in which they came.
#[derive(Debug, Clone, PartialEq, Eq)]
pub struct Message {
    pub id: u64,
    pub content: String,
    pub accept_attached: bool,
    pub decline_attached: bool,
    pub accepts: Vec<u64>,
    pub declines: Vec<u64>,
}

/// The messages of the channel, oldest first, and the id of the next one.
#[derive(Debug)]
pub struct Channel {
    pub messages: Vec<Message>,
    pub next_id: u64,
}

/// What a [`Message`] is in contracts.
pub struct MessageView {
    pub id: u64,
    pub content: Seq<char>,
    pub accept_attached: bool,
    pub decline_attached: bool,
    pub accepts: Seq<u64>,
    pub declines: Seq<u64>,
}

impl View for Message {
    type V = MessageView;

    open spec fn view(&self) -> MessageView {
        MessageView {
            id: self.id,
            content: self.content@,
            accept_attached: self.accept_attached,
            decline_attached: self.decline_attached,
            accepts: self.accepts@,
            declines: self.declines@,
        }
    }
}

/// What a [`Channel`] is in contracts.
pub struct ChannelView {
    pub messages: Seq<MessageView>,
    pub next_id: u64,
}

impl View for Channel {
    type V = ChannelView;

    open spec fn view(&self) -> ChannelView {
        ChannelView { messages: views(self.messages@), next_id: self.next_id }
    }
}

/// `signals` without the chat identity `actor`.
pub open spec fn without(signals: Seq<u64>, actor: u64) -> Seq<u64>
    decreases signals.len(),
{
    if signals.len() == 0 {
        Seq::empty()
    } else if signals.last() == actor {
        without(signals.drop_last(), actor)
    } else {
        without(signals.drop_last(), actor).push(signals.last())
    }
}

/// `signals` with the chat identity `actor`, which is added at the end unless
/// it is there already.
pub open spec fn with_actor(signals: Seq<u64>, actor: u64) -> Seq<u64> {
    if signals.contains(actor) {
        signals
    } else {
        signals.push(actor)
    }
}

/// Whether `k` is the first message of `messages` with the id `id`.
pub open spec fn is_message_at(messages: Seq<MessageView>, id: u64, k: int) -> bool {
    &&& 0 <= k < messages.len()
    &&& messages[k].id == id
    &&& forall|j: int| 0 <= j < k ==> (#[trigger] messages[j]).id != id
}

/// The place of the first message of `messages` with the id `id`, if there is one.
pub open spec fn message_index(messages: Seq<MessageView>, id: u64) -> Option<int> {
    if exists|k: int| is_message_at(messages, id, k) {
        Some(choose|k: int| is_message_at(messages, id, k))
    } else {
        None
    }
}

impl MessageView {
    /// A message as it is posted: nothing attached, nobody behind a marker.
    pub open spec fn posted(id: u64, content: Seq<char>) -> MessageView {
        MessageView {
            id,
            content,
            accept_attached: false,
            decline_attached: false,
            accepts: Seq::empty(),
            declines: Seq::empty(),
        }
    }

    /// The chat identities behind `marker`.
    pub open spec fn signals(self, marker: Marker) -> Seq<u64> {
        match marker {
            Marker::Accept => self.accepts,
            Marker::Decline => self.declines,
        }
    }

    /// This message with `marker` attached.
    pub open spec fn attach(self, marker: Marker) -> MessageView {
        match marker {
            Marker::Accept => MessageView { accept_attached: true, ..self },
            Marker::Decline => MessageView { decline_attached: true, ..self },
        }
    }

    /// This message with `signals` behind `marker`.
    pub open spec fn with_signals(self, marker: Marker, signals: Seq<u64>) -> MessageView {
        match marker {
            Marker::Accept => MessageView { accepts: signals, ..self },
            Marker::Decline => MessageView { declines: signals, ..self },
        }
    }
}

impl ChannelView {
    /// Whether every message has an id below the one that the next message
    /// will get; a channel that only ever posts stays so.
    pub open spec fn wf(self) -> bool {
        forall|i: int| 0 <= i < self.messages.len() ==> (#[trigger] self.messages[i]).id < self.next_id
    }

    /// The channel with its first message of the id `id` replaced by
    /// `changed`, and a failure of the channel where it has no such message.
    pub open spec fn replace(self, id: u64, changed: MessageView) -> (ChannelView, Option<ErrorKind>) {
        match message_index(self.messages, id) {
            Some(k) => (ChannelView { messages: self.messages.update(k, changed), ..self }, None),
            None => (self, Some(ErrorKind::Discord)),
        }
    }

    /// The first message with the id `id`; arbitrary where there is none.
    pub open spec fn message(self, id: u64) -> MessageView {
        self.messages[message_index(self.messages, id).unwrap()]
    }

    /// Whether the channel has a message with the id `id`.
    pub open spec fn has_message(self, id: u64) -> bool {
        message_index(self.messages, id) is Some
    }

    /// The channel after [`Channel::send_message`], and the kind of failure
    /// if it failed. The new message gets the channel's next id.
    pub open spec fn send_message(self, content: Seq<char>) -> (ChannelView, Option<ErrorKind>) {
        if self.next_id == u64::MAX {
            (self, Some(ErrorKind::Discord))
        } else {
            (
                ChannelView {
                    messages: self.messages.push(MessageView::posted(self.next_id, content)),
                    next_id: (self.next_id + 1) as u64,
                },
                None,
            )
        }
    }

    /// The channel after [`Channel::react`], and the kind of failure if it failed.
    pub open spec fn react(self, id: u64, marker: Marker) -> (ChannelView, Option<ErrorKind>) {
        self.replace(id, self.message(id).attach(marker))
    }

    /// The channel after [`Channel::edit`], and the kind of failure if it failed.
    pub open spec fn edit(self, id: u64, content: Seq<char>) -> (ChannelView, Option<ErrorKind>) {
        self.replace(id, MessageView { content, ..self.message(id) })
    }

    /// The channel after [`Channel::delete`], and the kind of failure if it failed.
    pub open spec fn delete(self, id: u64) -> (ChannelView, Option<ErrorKind>) {
        match message_index(self.messages, id) {
            Some(k) => (ChannelView { messages: self.messages.remove(k), ..self }, None),
            None => (self, Some(ErrorKind::Discord)),
        }
    }

    /// The channel after [`Channel::add_reaction`], and the kind of failure if it failed.
    pub open spec fn add_reaction(self, id: u64, marker: Marker, actor: u64) -> (
        ChannelView,
        Option<ErrorKind>,
    ) {
        self.replace(
            id,
            self.message(id).with_signals(
                marker,
                with_actor(self.message(id).signals(marker), actor),
            ),
        )
    }

    /// The channel after [`Channel::remove_reaction`], and the kind of failure if it failed.
    pub open spec fn remove_reaction(self, id: u64, marker: Marker, actor: u64) -> (
        ChannelView,
        Option<ErrorKind>,
    ) {
        self.replace(
            id,
            self.message(id).with_signals(marker, without(self.message(id).signals(marker), actor)),
        )
    }
}

fn no_such_message() -> (err: Error)
    ensures
        err.error.kind() == ErrorKind::Discord,
{
    discord_error("Unknown Message")
}

fn copy_ids(ids: &Vec<u64>) -> (copy: Vec<u64>)
    ensures
        copy@ == ids@,
{
    let mut copy: Vec<u64> = Vec::new();
    let mut i: usize = 0;
    while i < ids.len()
        invariant
            i <= ids.len(),
            copy@ =~= ids@.take(i as int),
        decreases ids.len() - i,
    {
        copy.push(ids[i]);
        i += 1;
    }
    assert(ids@.take(i as int) =~= ids@);
    copy
}

fn ids_without(ids: &Vec<u64>, actor: u64) -> (rest: Vec<u64>)
    ensures
        rest@ == without(ids@, actor),
{
    let mut rest: Vec<u64> = Vec::new();
    let mut i: usize = 0;
    assert(ids@.take(0) =~= Seq::<u64>::empty());
    while i < ids.len()
        invariant
            i <= ids.len(),
            rest@ =~= without(ids@.take(i as int), actor),
        decreases ids.len() - i,
    {
        assert(ids@.take(i + 1).drop_last() =~= ids@.take(i as int));
        if ids[i] != actor {
            rest.push(ids[i]);
        }
        i += 1;
    }
    assert(ids@.take(i as int) =~= ids@);
    rest
}

fn ids_with(ids: &Vec<u64>, actor: u64) -> (all: Vec<u64>)
    ensures
        all@ == with_actor(ids@, actor),
{
    let mut all = copy_ids(ids);
    let mut i: usize = 0;
    while i < ids.len()
        invariant
            i <= ids.len(),
            all@ == ids@,
            forall|j: int| 0 <= j < i ==> ids@[j] != actor,
        decreases ids.len() - i,
    {
        if ids[i] == actor {
            return all;
        }
        i += 1;
    }
    all.push(actor);
    all
}

impl Channel {
    /// A channel without messages, whose first message will have the id `first_id`.
    pub fn new(first_id: u64) -> (channel: Channel)
        ensures
            channel@ == (ChannelView { messages: Seq::empty(), next_id: first_id }),
    {
        let channel = Channel { messages: Vec::new(), next_id: first_id };
        assert(channel@.messages =~= Seq::empty());
        channel
    }

    /// The place of the first message with the id `message_id`.
    pub fn find(&self, message_id: u64) -> (found: Option<usize>)
        ensures
            match found {
                Some(k) => message_index(self@.messages, message_id) == Some(k as int) && k
                    < self.messages@.len(),
                None => message_index(self@.messages, message_id) is None,
            },
    {
        let ghost messages = self@.messages;
        let mut k: usize = 0;
        while k < self.messages.len()
            invariant
                k <= self.messages.len(),
                messages == self@.messages,
                forall|j: int| 0 <= j < k ==> (#[trigger] messages[j]).id != message_id,
            decreases self.messages.len() - k,
        {
            proof {
                assert(messages[k as int] == self.messages@[k as int]@);
            }
            if self.messages[k].id == message_id {
                proof {
                    assert(is_message_at(messages, message_id, k as int));
                    let c = choose|c: int| is_message_at(messages, message_id, c);
                    assert(messages[c].id == message_id);
                    assert(c == k);
                }
                return Some(k);
            }
            k += 1;
        }
        proof {
            assert forall|c: int| !is_message_at(messages, message_id, c) by {
                if 0 <= c < messages.len() {
                    assert(messages[c].id != message_id);
                }
            }
        }
        None
    }

    /// Puts `changed` in the place of the first message with the id `message_id`.
    fn put(&mut self, message_id: u64, k: usize, changed: Message)
        requires
            message_index(old(self)@.messages, message_id) == Some(k as int),
            k < old(self).messages@.len(),
        ensures
            (final(self)@, None::<ErrorKind>) == old(self)@.replace(message_id, changed@),
    {
        self.messages.set(k, changed);
        assert(self@.messages =~= old(self)@.messages.update(k as int, changed@));
    }

    /// Posts a message and hands out its id.
    pub fn send_message(&mut self, content: &str) -> (res: Result<u64, Error>)
        ensures
            (final(self)@, failure(res)) == old(self)@.send_message(content@),
            res matches Ok(id) ==> id == old(self).next_id,
            res is Err ==> *final(self) == *old(self),
    {
        if self.next_id == u64::MAX {
            return Err(discord_error("Message ids exhausted"));
        }
        let id = self.next_id;
        let message = Message {
            id,
            content: String::from_str(content),
            accept_attached: false,
            decline_attached: false,
            accepts: Vec::new(),
            declines: Vec::new(),
        };
        proof {
            lemma_views_push(self.messages@, message);
            assert(message@ =~= MessageView::posted(id, content@));
        }
        self.messages.push(message);
        self.next_id = id + 1;
        Ok(id)
    }

    /// Attaches `marker` to the message `message_id`, so that people can vote with it.
    pub fn react(&mut self, message_id: u64, marker: Marker) -> (res: Result<(), Error>)
        ensures
            (final(self)@, failure(res)) == old(self)@.react(message_id, marker),
            res is Err ==> *final(self) == *old(self),
    {
        let k = match self.find(message_id) {
            Some(k) => k,
            None => {
                return Err(no_such_message());
            },
        };
        let row = &self.messages[k];
        let changed = match marker {
            Marker::Accept => Message {
                id: row.id,
                content: row.content.clone(),
                accept_attached: true,
                decline_attached: row.decline_attached,
                accepts: copy_ids(&row.accepts),
                declines: copy_ids(&row.declines),
            },
            Marker::Decline => Message {
                id: row.id,
                content: row.content.clone(),
                accept_attached: row.accept_attached,
                decline_attached: true,
                accepts: copy_ids(&row.accepts),
                declines: copy_ids(&row.declines),
            },
        };
        assert(self@.messages[k as int] == self.messages@[k as int]@);
        self.put(message_id, k, changed);
        Ok(())
    }

    /// Replaces the text of the message `message_id`.
    pub fn edit(&mut self, message_id: u64, content: &str) -> (res: Result<(), Error>)
        ensures
            (final(self)@, failure(res)) == old(self)@.edit(message_id, content@),
            res is Err ==> *final(self) == *old(self),
    {
        let k = match self.find(message_id) {
            Some(k) => k,
            None => {
                return Err(no_such_message());
            },
        };
        let row = &self.messages[k];
        let changed = Message {
            id: row.id,
            content: String::from_str(content),
            accept_attached: row.accept_attached,
            decline_attached: row.decline_attached,
            accepts: copy_ids(&row.accepts),
            declines: copy_ids(&row.declines),
        };
        assert(self@.messages[k as int] == self.messages@[k as int]@);
        self.put(message_id, k, changed);
        Ok(())
    }

    /// Takes the message `message_id` out of the channel.
    pub fn delete(&mut self, message_id: u64) -> (res: Result<(), Error>)
        ensures
            (final(self)@, failure(res)) == old(self)@.delete(message_id),
            res is Err ==> *final(self) == *old(self),
    {
        let k = match self.find(message_id) {
            Some(k) => k,
            None => {
                return Err(no_such_message());
            },
        };
        let _ = self.messages.remove(k);
        assert(self@.messages =~= old(self)@.messages.remove(k as int));
        Ok(())
    }

    /// The chat identities that stand behind `marker` at the message `message_id`.
    pub fn reaction_users(&self, message_id: u64, marker: Marker) -> (res: Result<Vec<u64>, Error>)
        ensures
            match res {
                Ok(actors) => self@.has_message(message_id) && actors@ == self@.message(
                    message_id,
                ).signals(marker),
                Err(err) => !self@.has_message(message_id) && err.error.kind()
                    == ErrorKind::Discord,
            },
    {
        let k = match self.find(message_id) {
            Some(k) => k,
            None => {
                return Err(no_such_message());
            },
        };
        let actors = match marker {
            Marker::Accept => copy_ids(&self.messages[k].accepts),
            Marker::Decline => copy_ids(&self.messages[k].declines),
        };
        assert(self@.messages[k as int] == self.messages@[k as int]@);
        Ok(actors)
    }

    /// Lets the chat identity `actor` put `marker` on the message `message_id`.
    pub fn add_reaction(&mut self, message_id: u64, marker: Marker, actor: u64) -> (res: Result<
        (),
        Error,
    >)
        ensures
            (final(self)@, failure(res)) == old(self)@.add_reaction(message_id, marker, actor),
            res is Err ==> *final(self) == *old(self),
    {
        let k = match self.find(message_id) {
            Some(k) => k,
            None => {
                return Err(no_such_message());
            },
        };
        let row = &self.messages[k];
        let changed = match marker {
            Marker::Accept => Message {
                id: row.id,
                content: row.content.clone(),
                accept_attached: row.accept_attached,
                decline_attached: row.decline_attached,
                accepts: ids_with(&row.accepts, actor),
                declines: copy_ids(&row.declines),
            },
            Marker::Decline => Message {
                id: row.id,
                content: row.content.clone(),
                accept_attached: row.accept_attached,
                decline_attached: row.decline_attached,
                accepts: copy_ids(&row.accepts),
                declines: ids_with(&row.declines, actor),
            },
        };
        assert(self@.messages[k as int] == self.messages@[k as int]@);
        self.put(message_id, k, changed);
        Ok(())
    }

    /// Lets the chat identity `actor` take `marker` off the message `message_id`.
    pub fn remove_reaction(&mut self, message_id: u64, marker: Marker, actor: u64) -> (res: Result<
        (),
        Error,
    >)
        ensures
            (final(self)@, failure(res)) == old(self)@.remove_reaction(message_id, marker, actor),
            res is Err ==> *final(self) == *old(self),
    {
        let k = match self.find(message_id) {
            Some(k) => k,
            None => {
                return Err(no_such_message());
            },
        };
        let row = &self.messages[k];
        let changed = match marker {
            Marker::Accept => Message {
                id: row.id,
                content: row.content.clone(),
                accept_attached: row.accept_attached,
                decline_attached: row.decline_attached,
                accepts: ids_without(&row.accepts, actor),
                declines: copy_ids(&row.declines),
            },
            Marker::Decline => Message {
                id: row.id,
                content: row.content.clone(),
                accept_attached: row.accept_attached,
                decline_attached: row.decline_attached,
                accepts: copy_ids(&row.accepts),
                declines: ids_without(&row.declines, actor),
            },
        };
        assert(self@.messages[k as int] == self.messages@[k as int]@);
        self.put(message_id, k, changed);
        Ok(())
    }
}

/// Where the last message is the only one with its id, it is the one that
/// the id finds.
pub proof fn lemma_message_index_last(messages: Seq<MessageView>, id: u64)
    requires
        messages.len() > 0,
        messages.last().id == id,
        forall|i: int| 0 <= i < messages.len() - 1 ==> (#[trigger] messages[i]).id != id,
    ensures
        message_index(messages, id) == Some(messages.len() - 1),
{
    let k = messages.len() - 1;
    assert(is_message_at(messages, id, k));
    let c = choose|c: int| is_message_at(messages, id, c);
    assert(messages[c].id == id);
}

/// Posting, marking, editing, deleting and reacting keep every id below the
/// one that the next message will get.
pub proof fn lemma_channel_stays_wf(
    channel: ChannelView,
    id: u64,
    marker: Marker,
    actor: u64,
    content: Seq<char>,
)
    requires
        channel.wf(),
    ensures
        channel.send_message(content).0.wf(),
        channel.react(id, marker).0.wf(),
        channel.edit(id, content).0.wf(),
        channel.delete(id).0.wf(),
        channel.add_reaction(id, marker, actor).0.wf(),
        channel.remove_reaction(id, marker, actor).0.wf(),
{
    if message_index(channel.messages, id) is Some {
        let k = message_index(channel.messages, id).unwrap();
        assert(is_message_at(channel.messages, id, k));
        let gone = channel.delete(id).0;
        assert forall|i: int| 0 <= i < gone.messages.len() implies (#[trigger] gone.messages[i]).id
            < gone.next_id by {
            if i < k {
                assert(gone.messages[i] == channel.messages[i]);
            } else {
                assert(gone.messages[i] == channel.messages[i + 1]);
            }
        }
    }
}

} // verus!
