//! The chat session: the user's own profile, the roster of who is
//! connected, and the log of what was said.
//!
//! A session is made by `create`, which announces the user to the server;
//! from then on it takes in what the server sends and sends out what the
//! user writes. A text that cannot be read is dropped and leaves the
//! session as it was.
use vstd::prelude::*;
use crate::envelope::{envelope_text, text_envelope, EnvelopeView, MsgTypes, WebSocketMessage};
use crate::error::{Backpressure, MalformedEnvelope};
use crate::message::{text_message, MessageData, MessageView};
use crate::profile::{profile_for, profile_text, text_profile, ProfileView, UserProfile};
use crate::queue::offer;
use crate::text::text_views;
use crate::websocket::{WebsocketService, OUTBOUND_CAPACITY};

verus! {

/// What the session is asked to do.
#[derive(Debug, PartialEq, Eq)]
pub enum Msg {
    /// Take in a text that the server sent.
    HandleMsg(String),
    /// Send what the user wrote.
    SubmitMessage(String),
}

/// What an inbound text does to the session.
pub enum Effect {
    /// The roster is replaced by these profiles.
    Roster(Seq<ProfileView>),
    /// The message joins the end of the log.
    Message(MessageView),
    /// Nothing changes.
    Nothing,
}

/// The profiles that a list of texts holds: each text that reads as a
/// profile gives one, in order; a text that does not is passed over.
pub open spec fn decoded_profiles(texts: Seq<Seq<char>>) -> Seq<ProfileView>
    decreases texts.len(),
{
    if texts.len() == 0 {
        Seq::empty()
    } else {
        match text_profile(texts.last()) {
            Some(profile) => decoded_profiles(texts.drop_last()).push(profile),
            None => decoded_profiles(texts.drop_last()),
        }
    }
}

/// What an envelope does when it comes in.
///
/// `users` replaces the roster (no list at all means an empty roster),
/// `message` adds what its `data` holds to the log, and `register` means
/// nothing to a client.
pub open spec fn envelope_effect(e: EnvelopeView) -> Result<Effect, MalformedEnvelope> {
    match e.message_type {
        MsgTypes::Users => Ok(
            Effect::Roster(
                decoded_profiles(
                    match e.data_array {
                        Some(texts) => texts,
                        None => Seq::empty(),
                    },
                ),
            ),
        ),
        MsgTypes::Message => match e.data {
            Some(text) => match text_message(text) {
                Some(message) => Ok(Effect::Message(message)),
                None => Err(MalformedEnvelope::InvalidPayload),
            },
            None => Err(MalformedEnvelope::InvalidPayload),
        },
        MsgTypes::Register => Ok(Effect::Nothing),
    }
}

/// What an inbound text does.
pub open spec fn text_effect(raw: Seq<char>) -> Result<Effect, MalformedEnvelope> {
    match text_envelope(raw) {
        Ok(e) => envelope_effect(e),
        Err(why) => Err(why),
    }
}

/// The text that announces a profile to the server.
pub open spec fn registration_frame(profile: ProfileView) -> Seq<char> {
    envelope_text(
        EnvelopeView {
            message_type: MsgTypes::Register,
            data_array: None,
            data: Some(profile_text(profile)),
        },
    )
}

/// The text that carries what the user wrote.
pub open spec fn message_frame(text: Seq<char>) -> Seq<char> {
    envelope_text(
        EnvelopeView { message_type: MsgTypes::Message, data_array: None, data: Some(text) },
    )
}

/// The mathematical value of a [`Chat`].
pub struct ChatView {
    /// The user's own profile.
    pub profile: ProfileView,
    /// The roster.
    pub users: Seq<ProfileView>,
    /// The message log.
    pub messages: Seq<MessageView>,
    /// The texts that wait to be written, oldest first.
    pub outbound: Seq<Seq<char>>,
    /// How many texts may wait.
    pub capacity: nat,
}

impl ChatView {
    /// The session after an effect took place.
    pub open spec fn apply(self, effect: Effect) -> ChatView {
        match effect {
            Effect::Roster(users) => ChatView { users, ..self },
            Effect::Message(message) => ChatView { messages: self.messages.push(message), ..self },
            Effect::Nothing => self,
        }
    }

    /// The session after an inbound text. A text without effect, for being
    /// malformed, leaves the session as it was.
    pub open spec fn received(self, raw: Seq<char>) -> ChatView {
        match text_effect(raw) {
            Ok(effect) => self.apply(effect),
            Err(_) => self,
        }
    }

    /// The session after a run of inbound texts, taken in order.
    pub open spec fn received_all(self, raws: Seq<Seq<char>>) -> ChatView
        decreases raws.len(),
    {
        if raws.len() == 0 {
            self
        } else {
            self.received_all(raws.drop_last()).received(raws.last())
        }
    }

    /// The session after the user submitted `text`: nothing happens for an
    /// empty text; any other is offered to the outbound queue in its
    /// envelope.
    pub open spec fn submitted(self, text: Seq<char>) -> ChatView {
        if text.len() == 0 {
            self
        } else {
            ChatView { outbound: offer(self.outbound, self.capacity, message_frame(text)), ..self }
        }
    }
}

/// How many texts of a run are dropped for being malformed.
pub open spec fn dropped(raws: Seq<Seq<char>>) -> nat
    decreases raws.len(),
{
    if raws.len() == 0 {
        0
    } else if text_effect(raws.last()) is Err {
        dropped(raws.drop_last()) + 1
    } else {
        dropped(raws.drop_last())
    }
}

/// Whether an effect calls for the session to be shown anew.
pub open spec fn wants_render(effect: Effect) -> bool {
    !(effect is Nothing)
}

/// The values of a list of profiles.
pub open spec fn profile_views(users: Seq<UserProfile>) -> Seq<ProfileView> {
    Seq::new(users.len(), |i: int| users[i]@)
}

/// The values of a list of messages.
pub open spec fn message_views(messages: Seq<MessageData>) -> Seq<MessageView> {
    Seq::new(messages.len(), |i: int| messages[i]@)
}

/// The first profile of a roster that goes by `name`.
pub open spec fn find_profile(users: Seq<ProfileView>, name: Seq<char>) -> Option<ProfileView>
    decreases users.len(),
{
    if users.len() == 0 {
        None
    } else if users[0].name == name {
        Some(users[0])
    } else {
        find_profile(users.drop_first(), name)
    }
}

/// The client side of one chat connection.
pub struct Chat {
    profile: UserProfile,
    users: Vec<UserProfile>,
    messages: Vec<MessageData>,
    wss: WebsocketService,
}

impl View for Chat {
    type V = ChatView;

    closed spec fn view(&self) -> ChatView {
        ChatView {
            profile: self.profile@,
            users: profile_views(self.users@),
            messages: message_views(self.messages@),
            outbound: self.wss.tx@,
            capacity: self.wss.tx.limit(),
        }
    }
}

/// Reads the profiles out of a list of texts, passing over each text that
/// holds none.
pub fn decode_roster(texts: &Vec<String>) -> (users: Vec<UserProfile>)
    ensures
        profile_views(users@) == decoded_profiles(text_views(texts@)),
{
    let ghost all = text_views(texts@);
    let mut users: Vec<UserProfile> = Vec::new();
    let mut i: usize = 0;
    assert(all.take(0) =~= Seq::<Seq<char>>::empty());
    while i < texts.len()
        invariant
            i <= texts.len(),
            all == text_views(texts@),
            profile_views(users@) =~= decoded_profiles(all.take(i as int)),
        decreases texts.len() - i,
    {
        proof {
            let next = all.take(i + 1);
            assert(next.drop_last() =~= all.take(i as int));
            assert(next.last() == texts[i as int]@);
        }
        let ghost before = profile_views(users@);
        match UserProfile::decode(texts[i].as_str()) {
            Some(profile) => {
                users.push(profile);
                assert(profile_views(users@) =~= before.push(profile@));
            },
            None => {},
        }
        i += 1;
    }
    assert(all.take(i as int) =~= all);
    users
}

impl Chat {
    /// Opens the session of a user who signs in under `username` with
    /// `bio`, and queues the text that announces them to the server.
    ///
    /// The announcement reads back as a `register` envelope whose `data`
    /// reads back as the user's profile.
    pub fn create(username: String, bio: String) -> (chat: Chat)
        ensures
            chat@ == (ChatView {
                profile: profile_for(username@, bio@),
                users: Seq::empty(),
                messages: Seq::empty(),
                outbound: seq![registration_frame(profile_for(username@, bio@))],
                capacity: OUTBOUND_CAPACITY as nat,
            }),
            text_envelope(registration_frame(profile_for(username@, bio@))) == Ok::<
                EnvelopeView,
                MalformedEnvelope,
            >(
                EnvelopeView {
                    message_type: MsgTypes::Register,
                    data_array: None,
                    data: Some(profile_text(profile_for(username@, bio@))),
                },
            ),
            text_profile(profile_text(profile_for(username@, bio@))) == Some(
                profile_for(username@, bio@),
            ),
    {
        let mut wss = WebsocketService::new();
        let profile = UserProfile::new(username, bio);
        let message = WebSocketMessage {
            message_type: MsgTypes::Register,
            data: Some(profile.encode()),
            data_array: None,
        };
        let _ = wss.send(message.encode());
        let chat = Chat { profile, users: Vec::new(), messages: Vec::new(), wss };
        assert(chat@.users =~= Seq::empty());
        assert(chat@.messages =~= Seq::empty());
        assert(chat@.outbound =~= seq![registration_frame(profile_for(username@, bio@))]);
        chat
    }

    /// Takes in an envelope that the server sent. Says whether the session
    /// is to be shown anew.
    pub fn handle_envelope(&mut self, envelope: WebSocketMessage) -> (r: Result<bool, MalformedEnvelope>)
        ensures
            match r {
                Ok(changed) => envelope_effect(envelope@) matches Ok(effect)
                    && final(self)@ == old(self)@.apply(effect)
                    && changed == wants_render(effect),
                Err(why) => envelope_effect(envelope@) == Err::<Effect, MalformedEnvelope>(why)
                    && final(self)@ == old(self)@,
            },
    {
        match envelope.message_type {
            MsgTypes::Users => {
                let users = match envelope.data_array {
                    Some(texts) => decode_roster(&texts),
                    None => {
                        let none: Vec<String> = Vec::new();
                        assert(text_views(none@) =~= Seq::<Seq<char>>::empty());
                        decode_roster(&none)
                    },
                };
                self.users = users;
                Ok(true)
            },
            MsgTypes::Message => {
                let message = match envelope.data {
                    Some(text) => match MessageData::decode(text.as_str()) {
                        Some(message) => message,
                        None => return Err(MalformedEnvelope::InvalidPayload),
                    },
                    None => return Err(MalformedEnvelope::InvalidPayload),
                };
                let ghost before = message_views(self.messages@);
                self.messages.push(message);
                assert(message_views(self.messages@) =~= before.push(message@));
                Ok(true)
            },
            MsgTypes::Register => Ok(false),
        }
    }

    /// Takes in a text that the server sent. Says whether the session is to
    /// be shown anew; a text that cannot be read changes nothing.
    pub fn handle_message(&mut self, raw: &str) -> (r: Result<bool, MalformedEnvelope>)
        ensures
            match r {
                Ok(changed) => text_effect(raw@) matches Ok(effect)
                    && final(self)@ == old(self)@.apply(effect)
                    && changed == wants_render(effect),
                Err(why) => text_effect(raw@) == Err::<Effect, MalformedEnvelope>(why)
                    && final(self)@ == old(self)@,
            },
            final(self)@ == old(self)@.received(raw@),
    {
        match WebSocketMessage::decode(raw) {
            Ok(envelope) => self.handle_envelope(envelope),
            Err(why) => Err(why),
        }
    }

    /// Takes in a run of texts in order, dropping each that cannot be read
    /// and going on with the next. Says how many were dropped.
    pub fn handle_all(&mut self, raws: &Vec<String>) -> (lost: usize)
        ensures
            final(self)@ == old(self)@.received_all(text_views(raws@)),
            lost == dropped(text_views(raws@)),
    {
        let ghost all = text_views(raws@);
        let mut lost: usize = 0;
        let mut i: usize = 0;
        assert(all.take(0) =~= Seq::<Seq<char>>::empty());
        while i < raws.len()
            invariant
                i <= raws.len(),
                lost <= i,
                all == text_views(raws@),
                self@ == old(self)@.received_all(all.take(i as int)),
                lost == dropped(all.take(i as int)),
            decreases raws.len() - i,
        {
            proof {
                let next = all.take(i + 1);
                assert(next.drop_last() =~= all.take(i as int));
                assert(next.last() == raws[i as int]@);
            }
            match self.handle_message(raws[i].as_str()) {
                Ok(_) => {},
                Err(_) => {
                    lost += 1;
                },
            }
            i += 1;
        }
        assert(all.take(i as int) =~= all);
        lost
    }

    /// Sends what the user wrote: `Ok(false)` for an empty text, which is
    /// not sent; `Ok(true)` for a text that is queued; `Backpressure` for
    /// one that the full queue turned away.
    pub fn submit(&mut self, text: String) -> (r: Result<bool, Backpressure>)
        ensures
            final(self)@ == old(self)@.submitted(text@),
            r == if text@.len() == 0 {
                Ok::<bool, Backpressure>(false)
            } else if old(self)@.outbound.len() < old(self)@.capacity {
                Ok::<bool, Backpressure>(true)
            } else {
                Err::<bool, Backpressure>(Backpressure)
            },
    {
        if text.as_str().unicode_len() == 0 {
            return Ok(false);
        }
        let message = WebSocketMessage {
            message_type: MsgTypes::Message,
            data: Some(text),
            data_array: None,
        };
        match self.wss.send(message.encode()) {
            Ok(()) => Ok(true),
            Err(full) => Err(full),
        }
    }

    /// The profile under which the roster lists the sender of `message`:
    /// the first that goes by the sender's name.
    pub fn sender_profile(&self, message: &MessageData) -> (r: Option<&UserProfile>)
        ensures
            match r {
                Some(profile) => find_profile(self@.users, message@.from) == Some(profile@),
                None => find_profile(self@.users, message@.from) is None,
            },
    {
        let ghost all = profile_views(self.users@);
        assert(all.skip(0) =~= all);
        let mut i: usize = 0;
        while i < self.users.len()
            invariant
                i <= self.users.len(),
                all == profile_views(self.users@),
                find_profile(all, message@.from) == find_profile(all.skip(i as int), message@.from),
            decreases self.users.len() - i,
        {
            proof {
                let rest = all.skip(i as int);
                assert(rest[0] == self.users@[i as int]@);
                assert(rest.drop_first() =~= all.skip(i + 1));
            }
            if *self.users[i].name() == *message.sender() {
                return Some(&self.users[i]);
            }
            i += 1;
        }
        None
    }

    /// Whether `message` was written by the user of this session.
    pub fn is_own(&self, message: &MessageData) -> (r: bool)
        ensures
            r == (message@.from == self@.profile.name),
    {
        *message.sender() == *self.profile.name()
    }

    /// The text that the connection is to write next: the oldest that is
    /// queued. It leaves the queue.
    pub fn next_outbound(&mut self) -> (r: Option<String>)
        ensures
            match r {
                Some(text) => old(self)@.outbound.len() > 0 && text@ == old(self)@.outbound[0]
                    && final(self)@ == (ChatView {
                    outbound: old(self)@.outbound.drop_first(),
                    ..old(self)@
                }),
                None => old(self)@.outbound.len() == 0 && final(self)@ == old(self)@,
            },
    {
        self.wss.next_outbound()
    }

    /// The text that `next_outbound` would take.
    pub fn peek_outbound(&self) -> (r: Option<&String>)
        ensures
            match r {
                Some(text) => self@.outbound.len() > 0 && text@ == self@.outbound[0],
                None => self@.outbound.len() == 0,
            },
    {
        self.wss.tx.front()
    }

    /// The user's own profile.
    pub fn profile(&self) -> (profile: &UserProfile)
        ensures
            profile@ == self@.profile,
    {
        &self.profile
    }

    /// The roster.
    pub fn users(&self) -> (users: &Vec<UserProfile>)
        ensures
            profile_views(users@) == self@.users,
    {
        &self.users
    }

    /// The message log.
    pub fn messages(&self) -> (messages: &Vec<MessageData>)
        ensures
            message_views(messages@) == self@.messages,
    {
        &self.messages
    }

    /// Does what `msg` asks, and says whether the session is to be shown
    /// anew. Failures are swallowed: a text that cannot be read and a text
    /// that cannot be queued both leave the session as it was.
    pub fn update(&mut self, msg: Msg) -> (render: bool)
        ensures
            match msg {
                Msg::HandleMsg(raw) => final(self)@ == old(self)@.received(raw@)
                    && render == (text_effect(raw@) matches Ok(effect) && wants_render(effect)),
                Msg::SubmitMessage(text) => final(self)@ == old(self)@.submitted(text@) && !render,
            },
    {
        match msg {
            Msg::HandleMsg(raw) => match self.handle_message(raw.as_str()) {
                Ok(changed) => changed,
                Err(_) => false,
            },
            Msg::SubmitMessage(text) => {
                let _ = self.submit(text);
                false
            },
        }
    }
}

/// Where every text of a list reads as a profile, the list holds exactly
/// those profiles, in order.
pub proof fn lemma_decoded_profiles_all(texts: Seq<Seq<char>>, profiles: Seq<ProfileView>)
    requires
        texts.len() == profiles.len(),
        forall|i: int| 0 <= i < texts.len() ==> text_profile(#[trigger] texts[i]) == Some(profiles[i]),
    ensures
        decoded_profiles(texts) == profiles,
    decreases texts.len(),
{
    if texts.len() > 0 {
        lemma_decoded_profiles_all(texts.drop_last(), profiles.drop_last());
        assert(text_profile(texts[texts.len() - 1]) == Some(profiles[texts.len() - 1]));
        assert(profiles.drop_last().push(profiles.last()) =~= profiles);
    } else {
        assert(profiles =~= Seq::empty());
    }
}

/// A `users` envelope replaces the roster: whatever the roster held before,
/// it then holds the profiles of the envelope's list, and nothing else of
/// the session changes.
pub proof fn lemma_users_replace_roster(
    before: ChatView,
    raw: Seq<char>,
    texts: Seq<Seq<char>>,
    profiles: Seq<ProfileView>,
)
    requires
        text_envelope(raw) matches Ok(e) && e.message_type == MsgTypes::Users && e.data_array
            == Some(texts),
        texts.len() == profiles.len(),
        forall|i: int| 0 <= i < texts.len() ==> text_profile(#[trigger] texts[i]) == Some(profiles[i]),
    ensures
        before.received(raw) == (ChatView { users: profiles, ..before }),
{
    lemma_decoded_profiles_all(texts, profiles);
}

/// The messages that a run of inbound texts adds to the log: one for each
/// text that carries a message, in order.
pub open spec fn logged(raws: Seq<Seq<char>>) -> Seq<MessageView>
    decreases raws.len(),
{
    if raws.len() == 0 {
        Seq::empty()
    } else {
        match text_effect(raws.last()) {
            Ok(Effect::Message(message)) => logged(raws.drop_last()).push(message),
            _ => logged(raws.drop_last()),
        }
    }
}

/// The log only grows at its end: after any run of inbound texts it holds
/// what it held before, followed by the messages that the run carried, in
/// the order in which they came.
pub proof fn lemma_log_appends(before: ChatView, raws: Seq<Seq<char>>)
    ensures
        before.received_all(raws).messages == before.messages + logged(raws),
    decreases raws.len(),
{
    if raws.len() > 0 {
        lemma_log_appends(before, raws.drop_last());
        let mid = before.received_all(raws.drop_last());
        match text_effect(raws.last()) {
            Ok(Effect::Message(message)) => {
                assert(mid.messages.push(message) =~= before.messages + logged(raws));
            },
            _ => {},
        }
    } else {
        assert(before.messages =~= before.messages + logged(raws));
    }
}

/// A run of texts that each carry a message leaves the log with exactly
/// those messages added, in the order of the run.
pub proof fn lemma_messages_append_in_order(
    before: ChatView,
    raws: Seq<Seq<char>>,
    messages: Seq<MessageView>,
)
    requires
        raws.len() == messages.len(),
        forall|i: int|
            0 <= i < raws.len() ==> text_effect(#[trigger] raws[i]) == Ok::<
                Effect,
                MalformedEnvelope,
            >(Effect::Message(messages[i])),
    ensures
        before.received_all(raws).messages == before.messages + messages,
{
    lemma_log_appends(before, raws);
    lemma_logged_all(raws, messages);
}

/// Where every text of a run carries a message, the run adds exactly those
/// messages.
pub proof fn lemma_logged_all(raws: Seq<Seq<char>>, messages: Seq<MessageView>)
    requires
        raws.len() == messages.len(),
        forall|i: int|
            0 <= i < raws.len() ==> text_effect(#[trigger] raws[i]) == Ok::<
                Effect,
                MalformedEnvelope,
            >(Effect::Message(messages[i])),
    ensures
        logged(raws) == messages,
    decreases raws.len(),
{
    if raws.len() > 0 {
        lemma_logged_all(raws.drop_last(), messages.drop_last());
        assert(text_effect(raws[raws.len() - 1]) == Ok::<Effect, MalformedEnvelope>(
            Effect::Message(messages[raws.len() - 1]),
        ));
        assert(messages.drop_last().push(messages.last()) =~= messages);
    } else {
        assert(messages =~= Seq::empty());
    }
}

/// Taking in two runs one after the other is taking in their
/// concatenation.
pub proof fn lemma_received_all_concat(
    before: ChatView,
    first: Seq<Seq<char>>,
    second: Seq<Seq<char>>,
)
    ensures
        before.received_all(first + second) == before.received_all(first).received_all(second),
    decreases second.len(),
{
    if second.len() == 0 {
        assert(first + second =~= first);
    } else {
        lemma_received_all_concat(before, first, second.drop_last());
        assert((first + second).drop_last() =~= first + second.drop_last());
        assert((first + second).last() == second.last());
    }
}

/// A malformed text among others is dropped alone: the session ends up as
/// if the text had never come, so what came before it and what comes after
/// it are taken in all the same.
pub proof fn lemma_malformed_is_isolated(
    before: ChatView,
    earlier: Seq<Seq<char>>,
    bad: Seq<char>,
    later: Seq<Seq<char>>,
)
    requires
        text_effect(bad) is Err,
    ensures
        before.received_all(earlier + seq![bad] + later) == before.received_all(earlier + later),
{
    lemma_received_all_concat(before, earlier + seq![bad], later);
    lemma_received_all_concat(before, earlier, seq![bad]);
    lemma_received_all_concat(before, earlier, later);
    let mid = before.received_all(earlier);
    assert(seq![bad].drop_last() =~= Seq::<Seq<char>>::empty());
    assert(seq![bad].last() == bad);
    assert(mid.received_all(seq![bad]) == mid.received_all(Seq::empty()).received(bad));
}

} // verus!
