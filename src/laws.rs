//! Properties of the session that hold across events.

use vstd::prelude::*;
use crate::chat::{after_emoji, after_frame, after_submit, after_toggle, is_open, roster_of, ChatView, SyncState};
use crate::envelope::{decode_spec, encode_spec, lemma_decode_encode, EnvelopeView};
use crate::profile::avatar_url_spec;

verus! {

/// A frame that does not decode changes neither the roster nor the message
/// log, and asks for no redraw.
pub proof fn lemma_bad_frame_changes_nothing(v: ChatView, t: Seq<char>)
    requires
        decode_spec(t) is Err,
    ensures
        after_frame(v, t).0 == v,
        !after_frame(v, t).1,
{
}

/// A roster snapshot replaces the whole roster: after two snapshots the
/// roster is exactly the second one.
pub proof fn lemma_roster_replaced(v: ChatView, a: Seq<char>, b: Seq<char>, names_a: Seq<Seq<char>>, names_b: Seq<Seq<char>>)
    requires
        is_open(v.state),
        decode_spec(a) == Ok::<EnvelopeView, crate::envelope::DecodeError>(EnvelopeView::RosterSnapshot { names: names_a }),
        decode_spec(b) == Ok::<EnvelopeView, crate::envelope::DecodeError>(EnvelopeView::RosterSnapshot { names: names_b }),
    ensures
        after_frame(after_frame(v, a).0, b).0.users == roster_of(names_b),
        after_frame(after_frame(v, a).0, b).0.messages == v.messages,
{
}

/// Chat messages are appended in the order they arrive, and nothing is
/// merged: two messages, equal or not, make two entries.
pub proof fn lemma_messages_appended_in_order(
    v: ChatView,
    a: Seq<char>,
    b: Seq<char>,
    from_a: Seq<char>,
    body_a: Seq<char>,
    from_b: Seq<char>,
    body_b: Seq<char>,
)
    requires
        is_open(v.state),
        decode_spec(a) == Ok::<EnvelopeView, crate::envelope::DecodeError>(EnvelopeView::ChatMessage { from: from_a, body: body_a }),
        decode_spec(b) == Ok::<EnvelopeView, crate::envelope::DecodeError>(EnvelopeView::ChatMessage { from: from_b, body: body_b }),
    ensures
        after_frame(after_frame(v, a).0, b).0.messages == v.messages.push((from_a, body_a)).push((from_b, body_b)),
        after_frame(after_frame(v, a).0, b).0.users == v.users,
        after_frame(v, a).1 && after_frame(after_frame(v, a).0, b).1,
{
}

/// Sending an empty draft sends nothing and changes nothing.
pub proof fn lemma_empty_draft_sends_nothing(v: ChatView)
    requires
        v.draft.len() == 0,
    ensures
        after_submit(v) == (v, None::<Seq<char>>),
{
}

/// Every roster entry carries the avatar that its name gives, so a name's
/// avatar does not depend on which roster it came from.
pub proof fn lemma_roster_avatars(names: Seq<Seq<char>>, i: int)
    requires
        0 <= i < names.len(),
    ensures
        roster_of(names)[i] == (names[i], avatar_url_spec(names[i])),
{
}

/// A roster frame written by the encoder, taken while the channel is open,
/// makes the roster exactly its names, keeps the log, and asks for a redraw.
pub proof fn lemma_encoded_roster_applies(v: ChatView, names: Seq<Seq<char>>)
    requires
        is_open(v.state),
    ensures
        after_frame(v, encode_spec(EnvelopeView::RosterSnapshot { names })) == (ChatView { users: roster_of(names), ..v }, true),
{
    lemma_decode_encode(EnvelopeView::RosterSnapshot { names });
}

/// A chat frame written by the encoder, taken while the channel is open,
/// adds exactly its sender and body at the end of the log and asks for a
/// redraw; the roster stays.
pub proof fn lemma_encoded_message_applies(v: ChatView, from: Seq<char>, body: Seq<char>)
    requires
        is_open(v.state),
    ensures
        after_frame(v, encode_spec(EnvelopeView::ChatMessage { from, body })) == (
            ChatView { messages: v.messages.push((from, body)), state: SyncState::Active, ..v },
            true,
        ),
{
    lemma_decode_encode(EnvelopeView::ChatMessage { from, body });
}

/// The message log only grows at its end: a frame adds at most one entry
/// and keeps the old ones in place, and it adds one exactly when it is a
/// chat message taken while the channel is open. User actions leave the log
/// as it is.
pub proof fn lemma_log_append_only(v: ChatView, t: Seq<char>, emoji: Seq<char>)
    ensures
        ({
            let m = after_frame(v, t).0.messages;
            &&& v.messages.len() <= m.len() <= v.messages.len() + 1
            &&& m.subrange(0, v.messages.len() as int) == v.messages
            &&& (m.len() == v.messages.len() + 1 <==> is_open(v.state) && decode_spec(t) matches Ok(
                EnvelopeView::ChatMessage { .. },
            ))
        }),
        after_submit(v).0.messages == v.messages,
        after_toggle(v).messages == v.messages,
        after_emoji(v, emoji).messages == v.messages,
{
    let m = after_frame(v, t).0.messages;
    if m.len() == v.messages.len() + 1 {
        assert(m.subrange(0, v.messages.len() as int) =~= v.messages);
    } else {
        assert(m.subrange(0, v.messages.len() as int) =~= v.messages);
    }
}

} // verus!
