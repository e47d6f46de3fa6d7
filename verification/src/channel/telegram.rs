//! Telegram: texts that grow in place, and the limits on what is sent.

use super::{
    bytes_of, error_text, plain_mention, split_text, text_parts, ChatId, OutgoingContent,
    OutgoingMessage, ReplyView,
};
use crate::clock::{longer_than, passed, MILLISECOND, SECOND};
use crate::number::{parse_i64, signed_value};
use crate::split::{cat, cat4, joined, texts};
use crate::table::Table;
use crate::text::byte_len;
use vstd::prelude::*;
use vstd::string::*;

verus! {

/// A channel on Telegram.
#[derive(Debug, Clone)]
pub struct TelegramChannel {
    pub token: String,
}

impl TelegramChannel {
    /// A channel with its bot's token.
    pub fn new(token: String) -> (r: Self)
        ensures
            r.token == token,
    {
        TelegramChannel { token }
    }
}

/// How long a message may be. Texts that grow are measured in bytes, and texts
/// that are sent are cut by characters.
pub const MAX_MESSAGE_LENGTH: usize = 4096;

/// How long a message is left alone between two edits.
pub const MIN_EDIT_INTERVAL: u64 = 500 * MILLISECOND;

/// How long a text may stand incomplete before it is closed.
pub const STREAM_TIMEOUT: u64 = 30 * SECOND;

/// A text that grows in place: the message that shows it, what has arrived, and
/// when the message was last brought up to date.
#[derive(Debug)]
pub struct StreamState {
    pub msg_id: Option<i32>,
    pub buffer: String,
    pub last_update: u64,
}

/// A text that grows in place, as plain values.
pub struct StreamView {
    pub msg_id: Option<i32>,
    pub buffer: Seq<char>,
    pub last_update: u64,
}

impl View for StreamState {
    type V = StreamView;

    open spec fn view(&self) -> StreamView {
        StreamView { msg_id: self.msg_id, buffer: self.buffer@, last_update: self.last_update }
    }
}

impl StreamState {
    /// A text of which nothing has come yet.
    pub fn new(now: u64) -> (r: Self)
        ensures
            r@ == fresh(now),
    {
        StreamState { msg_id: None, buffer: String::new(), last_update: now }
    }

    /// Whether the text has stood still for too long.
    pub fn is_expired(&self, now: u64) -> (r: bool)
        ensures
            r == longer_than(self@.last_update, now, STREAM_TIMEOUT),
    {
        passed(self.last_update, now, STREAM_TIMEOUT)
    }
}

/// A text of which nothing has come yet.
pub open spec fn fresh(now: u64) -> StreamView {
    StreamView { msg_id: None, buffer: Seq::empty(), last_update: now }
}

/// What is to be done with the message that shows a text.
#[derive(Debug, Clone)]
pub enum StreamAction {
    /// Nothing yet.
    Wait,
    /// Send a new message with this text.
    Send { text: String },
    /// Bring a message up to date; once that is done, begin a new one with the
    /// rest, if there is a rest.
    Edit { msg_id: i32, text: String, rest: Option<String> },
}

/// What is to be done with the message that shows a text, as plain values.
pub enum ActionView {
    Wait,
    Send { text: Seq<char> },
    Edit { msg_id: i32, text: Seq<char>, rest: Option<Seq<char>> },
}

impl View for StreamAction {
    type V = ActionView;

    open spec fn view(&self) -> ActionView {
        match *self {
            StreamAction::Wait => ActionView::Wait,
            StreamAction::Send { text } => ActionView::Send { text: text@ },
            StreamAction::Edit { msg_id, text, rest } => ActionView::Edit {
                msg_id,
                text: text@,
                rest: crate::split::opt_text(rest),
            },
        }
    }
}

/// What a piece of a text leads to. A message that would grow too long is
/// brought up to date first, and the piece then begins a new one.
pub open spec fn on_piece(s: StreamView, piece: Seq<char>, now: u64) -> (StreamView, ActionView) {
    match s.msg_id {
        Some(msg_id) => if bytes_of(s.buffer) + bytes_of(piece) > MAX_MESSAGE_LENGTH {
            (s, ActionView::Edit { msg_id, text: s.buffer, rest: Some(piece) })
        } else if now - s.last_update >= MIN_EDIT_INTERVAL {
            (
                StreamView { buffer: s.buffer + piece, ..s },
                ActionView::Edit { msg_id, text: s.buffer + piece, rest: None },
            )
        } else {
            (StreamView { buffer: s.buffer + piece, ..s }, ActionView::Wait)
        },
        None => (
            StreamView { buffer: s.buffer + piece, ..s },
            ActionView::Send { text: s.buffer + piece },
        ),
    }
}

/// What is kept once a message has been brought up to date.
pub open spec fn after_edit(s: StreamView, rest: Option<Seq<char>>, now: u64) -> StreamView {
    match rest {
        Some(piece) => StreamView { msg_id: None, buffer: piece, ..s },
        None => StreamView { last_update: now, ..s },
    }
}

/// What is kept once a message has been sent.
pub open spec fn after_send(s: StreamView, msg_id: i32, now: u64) -> StreamView {
    StreamView { msg_id: Some(msg_id), last_update: now, ..s }
}

/// The last edit that a text needs.
pub open spec fn last_edit(s: StreamView) -> Option<(i32, Seq<char>)> {
    match s.msg_id {
        Some(msg_id) => Some((msg_id, s.buffer)),
        None => None,
    }
}

/// The texts of all chats that grow in place.
#[derive(Debug)]
pub struct StreamStates {
    states: Table<String, StreamState>,
}

impl View for StreamStates {
    type V = Map<Seq<char>, StreamView>;

    closed spec fn view(&self) -> Map<Seq<char>, StreamView> {
        self.states@
    }
}

/// The text of a chat, or a fresh one.
pub open spec fn state_of(m: Map<Seq<char>, StreamView>, chat: Seq<char>, now: u64) -> StreamView {
    if m.contains_key(chat) {
        m[chat]
    } else {
        fresh(now)
    }
}

/// The chats whose texts have stood still for too long.
pub open spec fn expired_set(m: Map<Seq<char>, StreamView>, now: u64) -> Set<Seq<char>> {
    Set::new(
        |chat: Seq<char>|
            m.contains_key(chat) && longer_than(m[chat].last_update, now, STREAM_TIMEOUT),
    )
}

impl StreamStates {
    /// Each chat has one text at most.
    pub closed spec fn wf(&self) -> bool {
        self.states.wf()
    }

    /// No texts.
    pub fn new() -> (r: Self)
        ensures
            r.wf(),
            r@ == Map::<Seq<char>, StreamView>::empty(),
    {
        StreamStates { states: Table::new() }
    }

    /// The text of a chat, taken out of the table, or a fresh one.
    fn take(&mut self, chat: &String, now: u64) -> (r: StreamState)
        requires
            old(self).wf(),
        ensures
            final(self).wf(),
            final(self)@ == old(self)@.remove(chat@),
            r@ == state_of(old(self)@, chat@, now),
    {
        match self.states.remove(chat) {
            Some(state) => state,
            None => StreamState::new(now),
        }
    }

    /// Takes a piece of a chat's text.
    pub fn handle_stream_chunk(&mut self, chat: &str, piece: &str, now: u64) -> (r: StreamAction)
        requires
            old(self).wf(),
        ensures
            final(self).wf(),
            ({
                let (state, action) = on_piece(state_of(old(self)@, chat@, now), piece@, now);
                r@ == action && final(self)@ == old(self)@.insert(chat@, state)
            }),
    {
        let key = chat.to_string();
        let mut state = self.take(&key, now);
        let ghost before = state@;
        let here: usize = byte_len(state.buffer.as_str());
        let more: usize = byte_len(piece);
        let too_long = here > MAX_MESSAGE_LENGTH || more > MAX_MESSAGE_LENGTH - here;
        let action = match state.msg_id {
            Some(msg_id) => if too_long {
                StreamAction::Edit {
                    msg_id,
                    text: state.buffer.clone(),
                    rest: Some(piece.to_string()),
                }
            } else {
                state.buffer.append(piece);
                if now >= state.last_update && now - state.last_update >= MIN_EDIT_INTERVAL {
                    StreamAction::Edit { msg_id, text: state.buffer.clone(), rest: None }
                } else {
                    StreamAction::Wait
                }
            },
            None => {
                state.buffer.append(piece);
                StreamAction::Send { text: state.buffer.clone() }
            },
        };
        let ghost after = state@;
        self.states.insert(key, state);
        proof {
            assert(old(self)@.remove(chat@).insert(chat@, after) =~= old(self)@.insert(
                chat@,
                after,
            ));
        }
        action
    }

    /// Takes note that a chat's message was brought up to date, or was not. A
    /// rest then begins a new message.
    pub fn edited(&mut self, chat: &str, done: bool, rest: Option<String>, now: u64) -> (r:
        StreamAction)
        requires
            old(self).wf(),
        ensures
            final(self).wf(),
            !done || !old(self)@.contains_key(chat@) ==> r@ == ActionView::Wait && final(self)@
                == old(self)@,
            done && old(self)@.contains_key(chat@) ==> {
                &&& final(self)@ == old(self)@.insert(
                    chat@,
                    after_edit(old(self)@[chat@], crate::split::opt_text(rest), now),
                )
                &&& r@ == match crate::split::opt_text(rest) {
                    Some(piece) => ActionView::Send { text: piece },
                    None => ActionView::Wait,
                }
            },
    {
        if !done {
            return StreamAction::Wait;
        }
        let key = chat.to_string();
        let (state, action) = match self.states.get(&key) {
            None => {
                return StreamAction::Wait;
            },
            Some(state) => match rest {
                Some(piece) => (
                    StreamState {
                        msg_id: None,
                        buffer: piece.clone(),
                        last_update: state.last_update,
                    },
                    StreamAction::Send { text: piece },
                ),
                None => (
                    StreamState {
                        msg_id: state.msg_id,
                        buffer: state.buffer.clone(),
                        last_update: now,
                    },
                    StreamAction::Wait,
                ),
            },
        };
        self.states.insert(key, state);
        action
    }

    /// Takes note of the message that now shows a chat's text.
    pub fn sent(&mut self, chat: &str, msg_id: i32, now: u64)
        requires
            old(self).wf(),
        ensures
            final(self).wf(),
            final(self)@ == if old(self)@.contains_key(chat@) {
                old(self)@.insert(chat@, after_send(old(self)@[chat@], msg_id, now))
            } else {
                old(self)@
            },
    {
        let key = chat.to_string();
        let state = match self.states.get(&key) {
            None => {
                return ;
            },
            Some(state) => StreamState {
                msg_id: Some(msg_id),
                buffer: state.buffer.clone(),
                last_update: now,
            },
        };
        self.states.insert(key, state);
    }

    /// Ends a chat's text: the edit that its message still needs.
    pub fn handle_stream_end(&mut self, chat: &str) -> (r: Option<(i32, String)>)
        requires
            old(self).wf(),
        ensures
            final(self).wf(),
            final(self)@ == old(self)@.remove(chat@),
            match r {
                Some((msg_id, text)) => old(self)@.contains_key(chat@) && last_edit(
                    old(self)@[chat@],
                ) == Some((msg_id, text@)),
                None => old(self)@.contains_key(chat@) ==> last_edit(old(self)@[chat@]) is None,
            },
    {
        match self.states.remove(&chat.to_string()) {
            Some(state) => match state.msg_id {
                Some(msg_id) => Some((msg_id, state.buffer)),
                None => None,
            },
            None => None,
        }
    }

    /// The chats whose texts have stood still for too long, each once.
    pub fn check_timeouts(&self, now: u64) -> (r: Vec<String>)
        requires
            self.wf(),
        ensures
            texts(r@).no_duplicates(),
            texts(r@).to_set() == expired_set(self@, now),
    {
        let mut r: Vec<String> = Vec::new();
        let n: usize = self.states.len();
        let ghost keys = self.states.keys();
        let ghost due = expired_set(self@, now);
        let mut i: usize = 0;
        while i < n
            invariant
                i <= n,
                n == keys.len(),
                keys == self.states.keys(),
                due == expired_set(self@, now),
                self.wf(),
                texts(r@).no_duplicates(),
                forall|k: Seq<char>| #[trigger]
                    texts(r@).contains(k) <==> keys.take(i as int).contains(k) && due.contains(k),
            decreases n - i,
        {
            let key = self.states.key_at(i);
            let ghost before = texts(r@);
            let ghost seen = keys.take(i as int);
            let ghost more = keys.take(i + 1);
            proof {
                assert(more == seen.push(key@));
                assert forall|k: Seq<char>| more.contains(k) <==> seen.contains(k) || k == key@ by {
                    if seen.contains(k) {
                        assert(more[seen.index_of(k)] == k);
                    }
                    assert(more[i as int] == key@);
                }
                assert(!seen.contains(key@));
            }
            let expired = self.states.value_at(i).is_expired(now);
            if expired {
                r.push(key.clone());
                proof {
                    assert(texts(r@) == before.push(key@));
                    assert forall|k: Seq<char>| before.push(key@).contains(k) <==> before.contains(
                        k,
                    ) || k == key@ by {
                        if before.contains(k) {
                            assert(before.push(key@)[before.index_of(k)] == k);
                        }
                        assert(before.push(key@)[before.len() as int] == key@);
                    }
                    assert(!before.contains(key@));
                }
            }
            proof {
                assert(due.contains(key@) <==> expired);
                assert forall|k: Seq<char>| #[trigger]
                    texts(r@).contains(k) <==> more.contains(k) && due.contains(k) by {
                    assert(before.contains(k) <==> seen.contains(k) && due.contains(k));
                    assert(more.contains(k) <==> seen.contains(k) || k == key@);
                }
            }
            i += 1;
        }
        proof {
            self.states.lemma_keys();
            assert(keys.take(n as int) == keys);
            assert forall|k: Seq<char>| #[trigger]
                texts(r@).to_set().contains(k) <==> due.contains(k) by {
                assert(texts(r@).to_set().contains(k) <==> texts(r@).contains(k));
                if self@.dom().contains(k) {
                    assert(keys.to_set().contains(k));
                }
            }
            assert(texts(r@).to_set() =~= due);
        }
        r
    }
}

/// The last edit of a chat's message.
#[derive(Debug, Clone)]
pub struct LastEdit {
    pub chat_id: ChatId,
    pub msg_id: i32,
    pub text: String,
}

/// The last edit of a chat's message, as plain values.
pub struct LastEditView {
    pub chat_id: Seq<char>,
    pub msg_id: i32,
    pub text: Seq<char>,
}

impl View for LastEdit {
    type V = LastEditView;

    open spec fn view(&self) -> LastEditView {
        LastEditView { chat_id: self.chat_id@, msg_id: self.msg_id, text: self.text@ }
    }
}

/// Some last edits, as plain values.
pub open spec fn edit_views(v: Seq<LastEdit>) -> Seq<LastEditView> {
    v.map_values(|e: LastEdit| e@)
}

/// Whether some edits are the last ones of certain chats, each once.
pub open spec fn are_last_edits(
    edits: Seq<LastEditView>,
    m: Map<Seq<char>, StreamView>,
    chats: Set<Seq<char>>,
) -> bool {
    &&& edits.no_duplicates()
    &&& forall|e: LastEditView| #[trigger]
        edits.contains(e) <==> chats.contains(e.chat_id) && m.contains_key(e.chat_id) && last_edit(
            m[e.chat_id],
        ) == Some((e.msg_id, e.text))
}

/// Ends the texts that have stood still for too long: the edits that their
/// messages still need.
pub fn check_and_flush_timeouts(states: &mut StreamStates, now: u64) -> (r: Vec<LastEdit>)
    requires
        old(states).wf(),
    ensures
        final(states).wf(),
        final(states)@ == old(states)@.remove_keys(expired_set(old(states)@, now)),
        are_last_edits(edit_views(r@), old(states)@, expired_set(old(states)@, now)),
{
    let chats = states.check_timeouts(now);
    let ghost names = texts(chats@);
    let ghost start = states@;
    let mut r: Vec<LastEdit> = Vec::new();
    let mut i: usize = 0;
    proof {
        assert(names.take(0).to_set() =~= Set::<Seq<char>>::empty());
        assert(start.remove_keys(Set::<Seq<char>>::empty()) =~= start);
    }
    while i < chats.len()
        invariant
            i <= chats@.len(),
            names == texts(chats@),
            names.no_duplicates(),
            states.wf(),
            states@ == start.remove_keys(names.take(i as int).to_set()),
            are_last_edits(edit_views(r@), start, names.take(i as int).to_set()),
        decreases chats@.len() - i,
    {
        let ghost chat = chats@[i as int]@;
        let ghost seen = names.take(i as int);
        let ghost more = names.take(i + 1);
        let ghost before = edit_views(r@);
        proof {
            assert(more == seen.push(chat));
            assert(!seen.contains(chat)) by {
                if seen.contains(chat) {
                    let j = seen.index_of(chat);
                    assert(names[j] == names[i as int]);
                }
            }
            assert(more.to_set() =~= seen.to_set().insert(chat)) by {
                assert forall|k: Seq<char>| more.contains(k) <==> seen.contains(k) || k == chat by {
                    if seen.contains(k) {
                        assert(more[seen.index_of(k)] == k);
                    }
                    assert(more[i as int] == chat);
                }
            }
        }
        let edit = states.handle_stream_end(chats[i].as_str());
        proof {
            assert(states@ =~= start.remove_keys(more.to_set()));
        }
        if let Some((msg_id, text)) = edit {
            let e = LastEdit { chat_id: ChatId(chats[i].clone()), msg_id, text };
            r.push(e);
            proof {
                assert(edit_views(r@) == before.push(e@));
                assert(!before.contains(e@)) by {
                    assert(e@.chat_id == chat);
                }
                assert forall|g: LastEditView| #[trigger]
                    edit_views(r@).contains(g) <==> more.to_set().contains(g.chat_id)
                        && start.contains_key(g.chat_id) && last_edit(start[g.chat_id]) == Some(
                        (g.msg_id, g.text),
                    ) by {
                    assert(before.push(e@).contains(g) <==> before.contains(g) || g == e@) by {
                        if before.contains(g) {
                            assert(before.push(e@)[before.index_of(g)] == g);
                        }
                        assert(before.push(e@)[before.len() as int] == e@);
                    }
                    assert(before.contains(g) <==> seen.to_set().contains(g.chat_id)
                        && start.contains_key(g.chat_id) && last_edit(start[g.chat_id]) == Some(
                        (g.msg_id, g.text),
                    ));
                }
            }
        } else {
            proof {
                assert(are_last_edits(before, start, more.to_set()));
            }
        }
        i += 1;
    }
    proof {
        assert(names.take(chats@.len() as int) == names);
    }
    r
}

/// The messages that a text is sent in.
pub fn send_text_message(text: &str) -> (r: Vec<String>)
    ensures
        texts(r@) == text_parts(text@, MAX_MESSAGE_LENGTH as nat),
{
    split_text(text, MAX_MESSAGE_LENGTH)
}

/// The number of a chat; zero where its name is no number.
pub fn chat_number(chat_id: &ChatId) -> (r: i64)
    ensures
        match signed_value(chat_id@) {
            Some(n) => r == if i64::MIN <= n <= i64::MAX {
                n
            } else {
                0
            },
            None => r == 0,
        },
{
    match parse_i64(chat_id.0.as_str()) {
        Some(n) => n,
        None => 0,
    }
}

/// What is done when something goes out to a user.
#[derive(Debug)]
pub enum OutgoingStep {
    /// Send these messages.
    Send(Vec<String>),
    /// A piece of a text has come.
    Stream(StreamAction),
    /// A text is complete: the edit that its message still needs.
    End(Option<(i32, String)>),
}

/// Takes something that goes out to a user.
pub fn handle_outgoing(
    states: &mut StreamStates,
    chat_id: &ChatId,
    msg: OutgoingMessage,
    now: u64,
) -> (r: OutgoingStep)
    requires
        old(states).wf(),
    ensures
        final(states).wf(),
        match msg@ {
            ReplyView::Text(text) => r matches OutgoingStep::Send(v) && texts(v@) == text_parts(
                text,
                MAX_MESSAGE_LENGTH as nat,
            )
                && final(states)@ == old(states)@,
            ReplyView::Error(error) => r matches OutgoingStep::Send(v) && texts(v@) == text_parts(
                error_text(error),
                MAX_MESSAGE_LENGTH as nat,
            ) && final(states)@ == old(states)@,
            ReplyView::Mention { target_bot, target_channel_name, message } => r
                matches OutgoingStep::Send(v) && texts(v@) == text_parts(
                plain_mention(target_bot, message),
                MAX_MESSAGE_LENGTH as nat,
            ) && final(states)@ == old(states)@,
            ReplyView::StreamChunk(piece) => {
                let (state, action) = on_piece(state_of(old(states)@, chat_id@, now), piece, now);
                &&& r matches OutgoingStep::Stream(a)
                &&& a@ == action
                &&& final(states)@ == old(states)@.insert(chat_id@, state)
            },
            ReplyView::StreamEnd => {
                &&& r matches OutgoingStep::End(e)
                &&& match e {
                    Some((msg_id, text)) => old(states)@.contains_key(chat_id@) && last_edit(
                        old(states)@[chat_id@],
                    ) == Some((msg_id, text@)),
                    None => old(states)@.contains_key(chat_id@) ==> last_edit(
                        old(states)@[chat_id@],
                    ) is None,
                }
                &&& final(states)@ == old(states)@.remove(chat_id@)
            },
        },
{
    match msg.content {
        OutgoingContent::Text(text) => OutgoingStep::Send(send_text_message(text.as_str())),
        OutgoingContent::StreamChunk(piece) => OutgoingStep::Stream(
            states.handle_stream_chunk(chat_id.0.as_str(), piece.as_str(), now),
        ),
        OutgoingContent::StreamEnd => OutgoingStep::End(
            states.handle_stream_end(chat_id.0.as_str()),
        ),
        OutgoingContent::Error(error) => {
            let text = cat("Error: ", error.as_str());
            OutgoingStep::Send(send_text_message(text.as_str()))
        },
        OutgoingContent::Mention { target_bot, target_channel_name: _, message } => {
            let text = cat4("@", target_bot.as_str(), " ", message.as_str());
            OutgoingStep::Send(send_text_message(text.as_str()))
        },
    }
}

// ---------------------------------------------------------------------------
// Laws
// ---------------------------------------------------------------------------

/// Before a message gives way to a new one it shows all that had arrived, and
/// the new one goes on with the next piece: no text is lost between them.
pub proof fn splitting_loses_no_text(s: StreamView, piece: Seq<char>, now: u64, later: u64)
    requires
        s.msg_id is Some,
        bytes_of(s.buffer) + bytes_of(piece) > MAX_MESSAGE_LENGTH,
    ensures
        ({
            let (kept, action) = on_piece(s, piece, now);
            &&& action matches ActionView::Edit { msg_id, text, rest }
            &&& s.msg_id == Some(msg_id)
            &&& text == s.buffer
            &&& rest == Some(piece)
            &&& after_edit(kept, rest, later).buffer == piece
            &&& after_edit(kept, rest, later).msg_id is None
        }),
{
}

/// As long as a message is not full, what is kept of its text is all that has
/// arrived, and every edit shows all of it.
pub proof fn messages_grow_with_the_text(s: StreamView, piece: Seq<char>, now: u64)
    requires
        s.msg_id is None || bytes_of(s.buffer) + bytes_of(piece) <= MAX_MESSAGE_LENGTH,
    ensures
        ({
            let (kept, action) = on_piece(s, piece, now);
            &&& kept.buffer == s.buffer + piece
            &&& kept.msg_id == s.msg_id
            &&& match action {
                ActionView::Wait => true,
                ActionView::Send { text } => text == kept.buffer && s.msg_id is None,
                ActionView::Edit { msg_id, text, rest } => text == kept.buffer && s.msg_id == Some(
                    msg_id,
                ) && rest is None,
            }
        }),
{
}

/// A message is never edited twice within half a second, but for its last edit.
pub proof fn edits_keep_their_distance(s: StreamView, piece: Seq<char>, now: u64)
    requires
        now - s.last_update < MIN_EDIT_INTERVAL,
    ensures
        on_piece(s, piece, now).1 matches ActionView::Edit { msg_id, text, rest } ==> rest is Some,
{
}

/// A text that grows, and what messages before the present one show of it, after
/// one more piece that was shown without a hitch. A message that is sent gets
/// the number `msg_id`.
pub open spec fn shown(s: StreamView, before: Seq<char>, piece: Seq<char>, now: u64, msg_id: i32) -> (
    StreamView,
    Seq<char>,
) {
    let (kept, action) = on_piece(s, piece, now);
    match action {
        ActionView::Wait => (kept, before),
        ActionView::Send { text } => (after_send(kept, msg_id, now), before),
        ActionView::Edit { msg_id: old_id, text, rest } => match rest {
            Some(_) => (after_send(after_edit(kept, rest, now), msg_id, now), before + text),
            None => (after_edit(kept, rest, now), before),
        },
    }
}

/// A text after some pieces that were shown without a hitch.
pub open spec fn all_shown(
    s: StreamView,
    before: Seq<char>,
    pieces: Seq<Seq<char>>,
    moments: Seq<u64>,
    ids: Seq<i32>,
) -> (StreamView, Seq<char>)
    decreases pieces.len(),
{
    if pieces.len() == 0 {
        (s, before)
    } else {
        let (t, b) = all_shown(
            s,
            before,
            pieces.drop_last(),
            moments.drop_last(),
            ids.drop_last(),
        );
        shown(t, b, pieces.last(), moments.last(), ids.last())
    }
}

/// The user sees the whole text: what the finished messages show and what the
/// present one shows after its next edit is together all the pieces, in their
/// order, however they are spread over messages.
pub proof fn users_see_the_whole_text(
    s: StreamView,
    before: Seq<char>,
    pieces: Seq<Seq<char>>,
    moments: Seq<u64>,
    ids: Seq<i32>,
)
    ensures
        ({
            let (t, b) = all_shown(s, before, pieces, moments, ids);
            b + t.buffer == before + s.buffer + joined(pieces, Seq::empty())
        }),
    decreases pieces.len(),
{
    let start = before + s.buffer;
    if pieces.len() == 0 {
        assert(start + Seq::<char>::empty() == start);
    } else {
        let front = pieces.drop_last();
        let last = pieces.last();
        users_see_the_whole_text(s, before, front, moments.drop_last(), ids.drop_last());
        let (t, b) = all_shown(s, before, front, moments.drop_last(), ids.drop_last());
        let (u, c) = shown(t, b, last, moments.last(), ids.last());
        assert(c + u.buffer == b + t.buffer + last) by {
            assert(b + (t.buffer + last) == b + t.buffer + last);
        }
        let sum = joined(front, Seq::empty());
        if front.len() == 0 {
            assert(start + sum + last == start + pieces[0]);
        } else {
            assert(start + sum + last == start + (sum + Seq::<char>::empty() + last));
        }
    }
}

/// The first piece of a text is sent in a message. Later ones are added to it: at
/// once where half a second has gone by since the message was last brought up to
/// date, and with a later piece where it has not. One that would make the message
/// longer than 4096 bytes brings it up to date and goes into a new one.
pub proof fn pieces_are_shown_in_turn(s: StreamView, piece: Seq<char>, now: u64, id: i32)
    ensures
        s.msg_id is None ==> on_piece(s, piece, now) == (
            StreamView { buffer: s.buffer + piece, ..s },
            ActionView::Send { text: s.buffer + piece },
        ),
        s.msg_id == Some(id) && bytes_of(s.buffer) + bytes_of(piece) > 4096 ==> on_piece(
            s,
            piece,
            now,
        ) == (s, ActionView::Edit { msg_id: id, text: s.buffer, rest: Some(piece) }),
        s.msg_id == Some(id) && bytes_of(s.buffer) + bytes_of(piece) <= 4096 && now
            >= s.last_update + 500_000_000 ==> on_piece(s, piece, now) == (
            StreamView { buffer: s.buffer + piece, ..s },
            ActionView::Edit { msg_id: id, text: s.buffer + piece, rest: None },
        ),
        s.msg_id == Some(id) && bytes_of(s.buffer) + bytes_of(piece) <= 4096 && now < s.last_update
            + 500_000_000 ==> on_piece(s, piece, now) == (
            StreamView { buffer: s.buffer + piece, ..s },
            ActionView::Wait,
        ),
{
}

/// A message that was sent is the one that shows the text from then on. One that
/// was brought up to date keeps its text, and the time is noted; where a piece is
/// left over, that piece begins a text that no message shows yet.
pub proof fn shown_texts_are_noted(s: StreamView, piece: Seq<char>, id: i32, now: u64)
    ensures
        after_send(s, id, now) == (StreamView {
            msg_id: Some(id),
            buffer: s.buffer,
            last_update: now,
        }),
        after_edit(s, None, now) == (StreamView {
            msg_id: s.msg_id,
            buffer: s.buffer,
            last_update: now,
        }),
        after_edit(s, Some(piece), now) == (StreamView {
            msg_id: None,
            buffer: piece,
            last_update: s.last_update,
        }),
{
}

/// A text that ends is shown whole by its message, where it has one. Texts that
/// nothing has been heard of are fresh: nothing is there, and nothing shows it.
pub proof fn ended_texts_are_shown_whole(
    m: Map<Seq<char>, StreamView>,
    chat: Seq<char>,
    id: i32,
    now: u64,
)
    ensures
        m[chat].msg_id == Some(id) ==> last_edit(m[chat]) == Some((id, m[chat].buffer)),
        m[chat].msg_id is None ==> last_edit(m[chat]) is None,
        m.contains_key(chat) ==> state_of(m, chat, now) == m[chat],
        !m.contains_key(chat) ==> state_of(m, chat, now).msg_id is None && state_of(
            m,
            chat,
            now,
        ).buffer.len() == 0 && state_of(m, chat, now).last_update == now,
{
}

/// A text is closed when its message has not been brought up to date for more than
/// half a minute, and not before.
pub proof fn texts_are_closed_after_half_a_minute(
    m: Map<Seq<char>, StreamView>,
    chat: Seq<char>,
    now: u64,
)
    ensures
        expired_set(m, now).contains(chat) <==> m.contains_key(chat) && m[chat].last_update
            + 30_000_000_000 < now,
{
}

/// Texts that are closed are shown whole, each by its own message and once; and
/// each that a message shows is among them.
pub proof fn closed_texts_are_shown_whole(
    edits: Seq<LastEditView>,
    m: Map<Seq<char>, StreamView>,
    chats: Set<Seq<char>>,
    i: int,
    j: int,
    chat: Seq<char>,
    id: i32,
)
    requires
        are_last_edits(edits, m, chats),
    ensures
        0 <= i < edits.len() ==> chats.contains(edits[i].chat_id) && m.contains_key(
            edits[i].chat_id,
        ) && m[edits[i].chat_id].msg_id == Some(edits[i].msg_id) && m[edits[i].chat_id].buffer
            == edits[i].text,
        0 <= i < j < edits.len() ==> edits[i].chat_id != edits[j].chat_id,
        chats.contains(chat) && m.contains_key(chat) && m[chat].msg_id == Some(id) ==> exists|k: int|
            0 <= k < edits.len() && #[trigger] edits[k] == (LastEditView {
                chat_id: chat,
                msg_id: id,
                text: m[chat].buffer,
            }),
{
    if 0 <= i < edits.len() {
        assert(edits.contains(edits[i]));
    }
    if 0 <= i < j < edits.len() {
        assert(edits.contains(edits[j]));
        if edits[i].chat_id == edits[j].chat_id {
            assert(edits[i] == edits[j]);
        }
    }
    if chats.contains(chat) && m.contains_key(chat) && m[chat].msg_id == Some(id) {
        let e = LastEditView { chat_id: chat, msg_id: id, text: m[chat].buffer };
        assert(edits.contains(e));
    }
}

/// A text that is sent goes out in one message where it has 4096 bytes at most, and
/// otherwise in messages of 4096 characters, of which only the last may have
/// fewer.
pub proof fn long_texts_fill_their_messages(text: Seq<char>, i: int)
    ensures
        bytes_of(text) <= 4096 ==> text_parts(text, MAX_MESSAGE_LENGTH as nat) == seq![text],
        bytes_of(text) > 4096 && 0 <= i < text_parts(text, MAX_MESSAGE_LENGTH as nat).len() - 1
            ==> text_parts(text, MAX_MESSAGE_LENGTH as nat)[i].len() == 4096,
{
    super::short_texts_are_sent_at_once(text, 4096, i);
}

/// What is to be done with a message is taken by the message and the texts that it
/// names.
pub proof fn actions_are_taken_by_what_they_name(
    id: i32,
    message: Option<i32>,
    text: String,
    rest: Option<String>,
    chat_id: ChatId,
    now: u64,
)
    ensures
        StreamAction::Wait@ == ActionView::Wait,
        (StreamAction::Send { text })@ == (ActionView::Send { text: text@ }),
        (StreamAction::Edit { msg_id: id, text, rest })@ == (ActionView::Edit {
            msg_id: id,
            text: text@,
            rest: crate::split::opt_text(rest),
        }),
        (LastEdit { chat_id, msg_id: id, text })@ == (LastEditView {
            chat_id: chat_id@,
            msg_id: id,
            text: text@,
        }),
        (StreamState { msg_id: message, buffer: text, last_update: now })@ == (StreamView {
            msg_id: message,
            buffer: text@,
            last_update: now,
        }),
{
}

/// What goes out to a user is sent in messages, unless it is a piece or the end of a
/// text that grows; only these two change the texts.
pub proof fn whole_texts_are_sent_in_messages(
    states: &mut StreamStates,
    chat: &ChatId,
    msg: OutgoingMessage,
    now: u64,
    r: OutgoingStep,
    text: Seq<char>,
)
    requires
        call_ensures(handle_outgoing, (states, chat, msg, now), r),
    ensures
        msg@ == ReplyView::Text(text) && bytes_of(text) <= 4096 ==> r is Send && texts(
            r->Send_0@,
        ) == seq![text],
        msg@ == ReplyView::Error(text) && bytes_of("Error: "@ + text) <= 4096 ==> r is Send
            && texts(r->Send_0@) == seq!["Error: "@ + text],
        msg@ is Text || msg@ is Error || msg@ is Mention ==> r is Send && final(states)@ == old(
            states,
        )@,
        msg@ is StreamChunk ==> r is Stream && final(states)@.contains_key(chat@),
        msg@ is StreamEnd ==> r is End && final(states)@ == old(states)@.remove(chat@),
{
    long_texts_fill_their_messages(text, 0);
    long_texts_fill_their_messages("Error: "@ + text, 0);
}

/// The first piece of a text is sent; once it has been sent, a piece that follows half
/// a second later goes into the same message, behind the first.
pub proof fn texts_grow_in_their_message(
    states: &mut StreamStates,
    chat: &str,
    first: &str,
    now: u64,
    a: StreamAction,
    shown: &mut StreamStates,
    id: i32,
    grown: &mut StreamStates,
    second: &str,
    later: u64,
    b: StreamAction,
)
    requires
        call_ensures(StreamStates::handle_stream_chunk, (states, chat, first, now), a),
        !old(states)@.contains_key(chat@),
        *old(shown) == *final(states),
        call_ensures(StreamStates::sent, (shown, chat, id, now), ()),
        *old(grown) == *final(shown),
        call_ensures(StreamStates::handle_stream_chunk, (grown, chat, second, later), b),
        later >= now + 500_000_000,
        bytes_of(first@) + bytes_of(second@) <= 4096,
    ensures
        a@ == (ActionView::Send { text: first@ }),
        b@ == (ActionView::Edit { msg_id: id, text: first@ + second@, rest: None }),
{
    assert(Seq::<char>::empty() + first@ == first@);
}

/// A text that ends is shown whole by its message and is forgotten; one that no
/// message shows needs no edit.
pub proof fn ended_texts_are_forgotten(
    states: &mut StreamStates,
    chat: &str,
    r: Option<(i32, String)>,
    id: i32,
)
    requires
        call_ensures(StreamStates::handle_stream_end, (states, chat), r),
    ensures
        final(states)@ == old(states)@.remove(chat@),
        old(states)@.contains_key(chat@) && old(states)@[chat@].msg_id == Some(id) ==> (r matches Some(
            (shown, text),
        ) && shown == id && text@ == old(states)@[chat@].buffer),
        !old(states)@.contains_key(chat@) || old(states)@[chat@].msg_id is None ==> r is None,
{
}

/// An edit that was done is noted, and a rest then begins a new message; one that was
/// not done changes nothing.
pub proof fn edits_are_noted(
    states: &mut StreamStates,
    chat: &str,
    done: bool,
    rest: Option<String>,
    now: u64,
    r: StreamAction,
)
    requires
        call_ensures(StreamStates::edited, (states, chat, done, rest, now), r),
        old(states)@.contains_key(chat@),
    ensures
        !done ==> r@ is Wait && final(states)@ == old(states)@,
        done && rest is None ==> r@ is Wait && final(states)@ == old(states)@.insert(
            chat@,
            StreamView { last_update: now, ..old(states)@[chat@] },
        ),
        done && rest is Some ==> r@ == (ActionView::Send { text: rest->0@ }) && final(states)@
            == old(states)@.insert(
            chat@,
            StreamView { msg_id: None, buffer: rest->0@, ..old(states)@[chat@] },
        ),
{
}

/// A chat is named by its number, with its sign; one whose name is no number has the
/// number zero. A text is closed after half a minute.
pub proof fn chats_are_numbered(
    chat: &ChatId,
    r: i64,
    n: u32,
    state: &StreamState,
    now: u64,
    yes: bool,
)
    ensures
        call_ensures(chat_number, (chat,), r) && chat@ == crate::number::decimal(n as nat) ==> r
            == n,
        call_ensures(chat_number, (chat,), r) && chat@ == seq!['-'] + crate::number::decimal(
            n as nat,
        ) ==> r == -(n as int),
        call_ensures(chat_number, (chat,), r) && signed_value(chat@) is None ==> r == 0,
        call_ensures(StreamState::is_expired, (state, now), yes) ==> yes == (state@.last_update
            + 30_000_000_000 < now),
{
    crate::number::decimal_reads_back(n as nat);
    crate::number::signs_are_read(n as nat);
}

/// Texts that nothing was heard of for half a minute are closed, and no others; those
/// that stay are as they were.
pub proof fn silent_texts_are_closed(
    states: &mut StreamStates,
    now: u64,
    edits: Vec<LastEdit>,
    chat: Seq<char>,
)
    requires
        call_ensures(check_and_flush_timeouts, (states, now), edits),
        old(states)@.contains_key(chat),
    ensures
        final(states)@.contains_key(chat) <==> old(states)@[chat].last_update + 30_000_000_000
            >= now,
        final(states)@.contains_key(chat) ==> final(states)@[chat] == old(states)@[chat],
{
    texts_are_closed_after_half_a_minute(old(states)@, chat, now);
}

/// A text that goes into one message is sent in one, and a piece of a text is taken as
/// such.
pub proof fn short_texts_take_one_message(
    text: &str,
    parts: Vec<String>,
    states: &mut StreamStates,
    chat: &ChatId,
    msg: OutgoingMessage,
    now: u64,
    r: OutgoingStep,
    piece: Seq<char>,
)
    ensures
        call_ensures(send_text_message, (text,), parts) && bytes_of(text@) <= 4096 ==> texts(parts@)
            == seq![text@],
        call_ensures(handle_outgoing, (states, chat, msg, now), r) && msg@ == ReplyView::StreamChunk(
            piece,
        ) && !old(states)@.contains_key(chat@) ==> r is Stream && r->Stream_0@ == (
        ActionView::Send { text: piece }) && final(states)@[chat@].buffer == piece,
{
    long_texts_fill_their_messages(text@, 0);
    assert(Seq::<char>::empty() + piece == piece);
}

}
