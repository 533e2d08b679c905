//! The chat synchronizer: the state of one chat session and how each event
//! (a relay frame, a user action, a transport change) moves it on.

use vstd::prelude::*;
use crate::envelope::{decode, decode_spec, encode, encode_outbound, encode_spec, outbound_text, Envelope, EnvelopeView};
use crate::profile::{avatar_url, avatar_url_spec, profile_of, UserProfile};

verus! {

/// Where a session stands with its relay.
#[derive(Debug, Clone, Copy, PartialEq, Eq, Structural)]
pub enum SyncState {
    /// No channel yet.
    Disconnected,
    /// The channel is being opened.
    Connecting,
    /// The channel is open and the identity has been announced.
    Registered,
    /// At least one chat message has arrived.
    Active,
    /// The transport failed; the session is over.
    Failed,
}

/// One line of the message log.
#[derive(Debug, Clone, PartialEq, Eq)]
pub struct MessageData {
    pub from: String,
    pub message: String,
}

/// The events the session reacts to.
pub enum Msg {
    /// A text frame from the relay.
    HandleMsg(String),
    /// The user sends the composer draft.
    SubmitMessage,
    /// The user shows or hides the emoji picker.
    ToggleEmojiPicker,
    /// The user picks an emoji for the draft.
    InsertEmoji(String),
}

/// What the view and the transport must do after an event.
pub struct Outcome {
    /// The view must be drawn again.
    pub rerender: bool,
    /// A frame to send to the relay.
    pub outbound: Option<String>,
}

/// The mathematical state of a session.
pub struct ChatView {
    pub identity: Seq<char>,
    /// Name and avatar of each user online, in the relay's order.
    pub users: Seq<(Seq<char>, Seq<char>)>,
    /// Sender and body of each message received, in arrival order.
    pub messages: Seq<(Seq<char>, Seq<char>)>,
    pub draft: Seq<char>,
    pub show_emoji_picker: bool,
    pub state: SyncState,
}

/// A chat session.
pub struct Chat {
    identity: String,
    users: Vec<UserProfile>,
    messages: Vec<MessageData>,
    draft: String,
    show_emoji_picker: bool,
    state: SyncState,
}

impl View for Chat {
    type V = ChatView;

    closed spec fn view(&self) -> ChatView {
        ChatView {
            identity: self.identity@,
            users: self.users@.map_values(|u: UserProfile| (u.name@, u.avatar@)),
            messages: self.messages@.map_values(|m: MessageData| (m.from@, m.message@)),
            draft: self.draft@,
            show_emoji_picker: self.show_emoji_picker,
            state: self.state,
        }
    }
}

/// The roster that a snapshot of names gives.
pub open spec fn roster_of(names: Seq<Seq<char>>) -> Seq<(Seq<char>, Seq<char>)> {
    names.map_values(|n: Seq<char>| (n, avatar_url_spec(n)))
}

/// Whether frames flow on the channel.
pub open spec fn is_open(s: SyncState) -> bool {
    s == SyncState::Registered || s == SyncState::Active
}

/// The session after a relay frame, and whether the view must be redrawn.
/// Frames that do not decode, and registrations echoed by the relay, change
/// nothing; so does any frame while the channel is not open.
pub open spec fn after_frame(v: ChatView, t: Seq<char>) -> (ChatView, bool) {
    if !is_open(v.state) {
        (v, false)
    } else {
        match decode_spec(t) {
            Ok(EnvelopeView::RosterSnapshot { names }) => (ChatView { users: roster_of(names), ..v }, true),
            Ok(EnvelopeView::ChatMessage { from, body }) => (
                ChatView { messages: v.messages.push((from, body)), state: SyncState::Active, ..v },
                true,
            ),
            _ => (v, false),
        }
    }
}

/// The session after the user sends the draft, and the frame to send. An
/// empty draft sends nothing and stays as it is. Any other draft is cleared;
/// it goes out as a frame only while the channel is open.
pub open spec fn after_submit(v: ChatView) -> (ChatView, Option<Seq<char>>) {
    if v.draft.len() == 0 {
        (v, None)
    } else if !is_open(v.state) {
        (ChatView { draft: seq![], ..v }, None)
    } else {
        (ChatView { draft: seq![], ..v }, Some(outbound_text(v.draft)))
    }
}

/// The session after the picker is shown or hidden.
pub open spec fn after_toggle(v: ChatView) -> ChatView {
    ChatView { show_emoji_picker: !v.show_emoji_picker, ..v }
}

/// The session after an emoji is picked: it joins the draft after a space,
/// and the picker closes.
pub open spec fn after_emoji(v: ChatView, emoji: Seq<char>) -> ChatView {
    ChatView { draft: v.draft + seq![' '] + emoji, show_emoji_picker: false, ..v }
}

impl Chat {
    /// Each user's avatar is the one their name gives.
    pub open spec fn wf(&self) -> bool {
        forall|i: int| 0 <= i < self@.users.len() ==> #[trigger] self@.users[i].1 == avatar_url_spec(self@.users[i].0)
    }

    /// A session for an identity, before its channel is opened.
    pub fn new(identity: String) -> (r: Chat)
        ensures
            r.wf(),
            r@ == (ChatView {
                identity: identity@,
                users: seq![],
                messages: seq![],
                draft: seq![],
                show_emoji_picker: false,
                state: SyncState::Disconnected,
            }),
    {
        let r = Chat {
            identity,
            users: Vec::new(),
            messages: Vec::new(),
            draft: String::new(),
            show_emoji_picker: false,
            state: SyncState::Disconnected,
        };
        assert(r@.users =~= seq![]);
        assert(r@.messages =~= seq![]);
        r
    }

    /// The channel starts opening.
    pub fn connect(&mut self)
        ensures
            old(self)@.state == SyncState::Disconnected ==> final(self)@ == (ChatView { state: SyncState::Connecting, ..old(self)@ }),
            old(self)@.state != SyncState::Disconnected ==> final(self)@ == old(self)@,
            old(self).wf() ==> final(self).wf(),
    {
        if self.state == SyncState::Disconnected {
            self.state = SyncState::Connecting;
        }
    }

    /// The channel is open: the session announces its identity. Returns the
    /// registration frame to send, or `None` where no channel was opening.
    pub fn opened(&mut self) -> (r: Option<String>)
        ensures
            old(self)@.state == SyncState::Connecting ==> final(self)@ == (ChatView { state: SyncState::Registered, ..old(self)@ })
                && (r matches Some(f) && f@ == encode_spec(EnvelopeView::Register { name: old(self)@.identity })),
            old(self)@.state != SyncState::Connecting ==> final(self)@ == old(self)@ && r is None,
            old(self).wf() ==> final(self).wf(),
    {
        if self.state != SyncState::Connecting {
            return None;
        }
        self.state = SyncState::Registered;
        let frame = encode(&Envelope::Register { name: self.identity.clone() });
        Some(frame)
    }

    /// A session for an identity whose channel has just opened, and the
    /// registration frame it sends.
    pub fn create(identity: String) -> (r: (Chat, String))
        ensures
            r.0.wf(),
            r.0@ == (ChatView {
                identity: identity@,
                users: seq![],
                messages: seq![],
                draft: seq![],
                show_emoji_picker: false,
                state: SyncState::Registered,
            }),
            r.1@ == encode_spec(EnvelopeView::Register { name: identity@ }),
    {
        let mut chat = Chat::new(identity);
        chat.connect();
        let frame = chat.opened();
        match frame {
            Some(f) => (chat, f),
            None => (chat, String::new()),
        }
    }

    /// The transport failed: the session ends.
    pub fn transport_failed(&mut self)
        ensures
            final(self)@ == (ChatView { state: SyncState::Failed, ..old(self)@ }),
            old(self).wf() ==> final(self).wf(),
    {
        self.state = SyncState::Failed;
    }

    /// Takes one frame from the relay. Returns whether the view must be
    /// redrawn.
    pub fn handle_frame(&mut self, text: &str) -> (r: bool)
        requires
            old(self).wf(),
        ensures
            final(self).wf(),
            (final(self)@, r) == after_frame(old(self)@, text@),
    {
        if self.state != SyncState::Registered && self.state != SyncState::Active {
            return false;
        }
        match decode(text) {
            Ok(Envelope::RosterSnapshot { names }) => {
                self.replace_roster(&names);
                true
            },
            Ok(Envelope::ChatMessage { from, body }) => {
                self.messages.push(MessageData { from, message: body });
                self.state = SyncState::Active;
                assert(self@.messages =~= old(self)@.messages.push((from@, body@)));
                assert(self@.users =~= old(self)@.users);
                true
            },
            _ => false,
        }
    }

    fn replace_roster(&mut self, names: &Vec<String>)
        ensures
            final(self)@ == (ChatView { users: roster_of(names.deep_view()), ..old(self)@ }),
            final(self).wf(),
    {
        let mut users: Vec<UserProfile> = Vec::new();
        let mut i: usize = 0;
        while i < names.len()
            invariant
                i <= names@.len(),
                users@.len() == i,
                forall|j: int| 0 <= j < i ==> #[trigger] users@[j].name@ == names@[j]@ && users@[j].avatar@ == avatar_url_spec(names@[j]@),
            decreases names@.len() - i,
        {
            users.push(profile_of(names[i].as_str()));
            i = i + 1;
        }
        self.users = users;
        assert(self@.users =~= roster_of(names.deep_view()));
        assert(self@.messages =~= old(self)@.messages);
    }

    /// Sends the composer draft. Returns the frame to send, if any.
    pub fn submit(&mut self) -> (r: Option<String>)
        ensures
            (final(self)@, match r { Some(f) => Some(f@), None => None::<Seq<char>> }) == after_submit(old(self)@),
            old(self).wf() ==> final(self).wf(),
    {
        if self.draft.unicode_len() == 0 {
            return None;
        }
        if self.state != SyncState::Registered && self.state != SyncState::Active {
            self.draft = String::new();
            return None;
        }
        let frame = encode_outbound(self.draft.as_str());
        self.draft = String::new();
        Some(frame)
    }

    /// Shows or hides the emoji picker.
    pub fn toggle_emoji_picker(&mut self)
        ensures
            final(self)@ == after_toggle(old(self)@),
            old(self).wf() ==> final(self).wf(),
    {
        self.show_emoji_picker = !self.show_emoji_picker;
    }

    /// Adds an emoji to the draft and closes the picker.
    pub fn insert_emoji(&mut self, emoji: &str)
        ensures
            final(self)@ == after_emoji(old(self)@, emoji@),
            old(self).wf() ==> final(self).wf(),
    {
        self.draft.append(" ");
        self.draft.append(emoji);
        self.show_emoji_picker = false;
        proof {
            reveal_strlit(" ");
        }
        assert(self@.draft =~= old(self)@.draft + seq![' '] + emoji@);
    }

    /// Replaces the composer draft with what the input control holds.
    pub fn set_draft(&mut self, text: String)
        ensures
            final(self)@ == (ChatView { draft: text@, ..old(self)@ }),
            old(self).wf() ==> final(self).wf(),
    {
        self.draft = text;
    }

    /// Handles one event. The result says whether to redraw the view and
    /// what to send to the relay.
    pub fn update(&mut self, msg: Msg) -> (r: Outcome)
        requires
            old(self).wf(),
        ensures
            final(self).wf(),
            match msg {
                Msg::HandleMsg(t) => (final(self)@, r.rerender) == after_frame(old(self)@, t@) && r.outbound is None,
                Msg::SubmitMessage => (final(self)@, match r.outbound { Some(f) => Some(f@), None => None::<Seq<char>> })
                    == after_submit(old(self)@) && !r.rerender,
                Msg::ToggleEmojiPicker => final(self)@ == after_toggle(old(self)@) && r.rerender && r.outbound is None,
                Msg::InsertEmoji(e) => final(self)@ == after_emoji(old(self)@, e@) && r.rerender && r.outbound is None,
            },
    {
        match msg {
            Msg::HandleMsg(t) => {
                let rerender = self.handle_frame(t.as_str());
                Outcome { rerender, outbound: None }
            },
            Msg::SubmitMessage => {
                let outbound = self.submit();
                Outcome { rerender: false, outbound }
            },
            Msg::ToggleEmojiPicker => {
                self.toggle_emoji_picker();
                Outcome { rerender: true, outbound: None }
            },
            Msg::InsertEmoji(e) => {
                self.insert_emoji(e.as_str());
                Outcome { rerender: true, outbound: None }
            },
        }
    }

    /// The avatar shown for a name, whether or not it is on the roster.
    pub fn avatar_of(&self, name: &str) -> (r: String)
        requires
            self.wf(),
        ensures
            r@ == avatar_url_spec(name@),
    {
        let mut i: usize = 0;
        while i < self.users.len()
            invariant
                self.wf(),
                i <= self.users@.len(),
            decreases self.users@.len() - i,
        {
            if crate::envelope::same_text(self.users[i].name.as_str(), name) {
                proof {
                    assert(self@.users[i as int].1 == avatar_url_spec(self@.users[i as int].0));
                }
                return self.users[i].avatar.clone();
            }
            i = i + 1;
        }
        avatar_url(name)
    }

    /// The users online, as last reported by the relay.
    pub fn users(&self) -> (r: &Vec<UserProfile>)
        ensures
            r@.map_values(|u: UserProfile| (u.name@, u.avatar@)) == self@.users,
    {
        &self.users
    }

    /// The messages received so far, in arrival order.
    pub fn messages(&self) -> (r: &Vec<MessageData>)
        ensures
            r@.map_values(|m: MessageData| (m.from@, m.message@)) == self@.messages,
    {
        &self.messages
    }

    pub fn identity(&self) -> (r: &str)
        ensures
            r@ == self@.identity,
    {
        self.identity.as_str()
    }

    pub fn draft(&self) -> (r: &str)
        ensures
            r@ == self@.draft,
    {
        self.draft.as_str()
    }

    pub fn show_emoji_picker(&self) -> (r: bool)
        ensures
            r == self@.show_emoji_picker,
    {
        self.show_emoji_picker
    }

    pub fn state(&self) -> (r: SyncState)
        ensures
            r == self@.state,
    {
        self.state
    }
}

} // verus!
