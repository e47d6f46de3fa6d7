//! QQ: the gateway protocol, the messages of users, and the messages to them.

use super::buffers::{are_texts_of, flushed_views, stale_set, Flushed, StreamBuffers};
use super::token::TokenCache;
use super::{command_in, is_lowered, ChatId, ContentView, IncomingContent};
use crate::clock::SECOND;
use crate::message::{IngressContent, IngressMessage};
use crate::number::{decimal, parse_u64, to_decimal, unsigned_value};
use crate::shared_map::{insert_text, new_texts, texts_in};
use crate::split::{
    after_prefix, cat, cat3, cat4, clip, clipped, copy_opt, first_pos, is_text, lemma_first_pos,
    lemma_first_pos_behind, lemma_first_pos_bounds, lemma_word_len, lemma_word_len_bounds, opt_text, position, strip_prefix,
    word_len,
};
use crate::table::Table;
use crate::text::{
    chars_of, digit, is_white, lemma_trim_end_behind, lemma_trim_end_props, lemma_trim_end_visible,
    lemma_trim_parts, lemma_trim_start, lemma_trim_start_before, lemma_trim_start_len,
    lemma_trim_white, trim, trim_end, trim_start, trimmed, trimmed_start, white,
};
use dashmap::DashMap;
use vstd::prelude::*;
use vstd::string::*;

verus! {

/// A channel on QQ, with what it needs to fetch its tokens.
#[derive(Debug)]
pub struct QqChannel {
    pub app_id: String,
    pub client_secret: String,
    pub token: TokenCache,
}

impl QqChannel {
    /// A channel that has no token yet.
    pub fn new(app_id: String, client_secret: String) -> (r: Self)
        ensures
            r.app_id == app_id,
            r.client_secret == client_secret,
            r.token@ is None,
    {
        QqChannel { app_id, client_secret, token: TokenCache::new() }
    }
}

// ---------------------------------------------------------------------------
// Messages of users
// ---------------------------------------------------------------------------

/// What may stand before a command: white space, and what mentions are made of.
pub open spec fn mention_char(c: char) -> bool {
    white(c) || c == '@' || c == '<' || c == '>' || c == '!' || digit(c)
}

/// Whether a text begins with mentions only, up to its first slash.
pub open spec fn mentions_then_slash(t: Seq<char>) -> bool {
    first_pos(t, '/') < t.len() && forall|i: int|
        0 <= i < first_pos(t, '/') ==> mention_char(#[trigger] t[i])
}

/// How many characters a mention at the head of a text has: a tag from `<@` up to
/// its `>`, or an at sign with the name up to the next white space. None where
/// the text begins with no mention.
pub open spec fn mention_len(t: Seq<char>) -> int {
    if t.len() > 1 && t[0] == '<' && t[1] == '@' && first_pos(t, '>') < t.len() {
        first_pos(t, '>') + 1
    } else if t.len() > 0 && t[0] == '@' {
        word_len(t)
    } else {
        0
    }
}

/// A text without the mentions at its head and the white space behind them.
pub open spec fn after_mentions(t: Seq<char>) -> Seq<char>
    decreases t.len(),
    via after_mentions_ends
{
    if mention_len(t) > 0 {
        after_mentions(trim_start(t.skip(mention_len(t))))
    } else {
        t
    }
}

#[via_fn]
proof fn after_mentions_ends(t: Seq<char>) {
    if mention_len(t) > 0 {
        lemma_word_len_bounds(t);
        lemma_trim_start_len(t.skip(mention_len(t)));
    }
}

/// What stands behind the slash of a user's text, where it is a command: only
/// mentions, or what mentions are made of, stand before the slash.
pub open spec fn qq_command(content: Seq<char>) -> Option<Seq<char>> {
    let t = trim(content);
    let u = after_mentions(t);
    if mentions_then_slash(t) {
        Some(trim_start(t.skip(first_pos(t, '/') + 1)))
    } else if u.len() > 0 && u[0] == '/' {
        Some(trim_start(u.skip(1)))
    } else {
        None
    }
}

/// What a user's text says: a command, or plain text without the mentions at its
/// head.
pub open spec fn qq_content(content: Seq<char>) -> ContentView {
    match qq_command(content) {
        Some(rest) => command_in(rest),
        None => ContentView::Text(after_mentions(trim(content))),
    }
}

/// Where the tag at a place ends; the place itself where none stands there.
fn tag_end(cs: &Vec<char>, at: usize) -> (r: usize)
    requires
        at <= cs@.len(),
    ensures
        ({
            let t = cs@.skip(at as int);
            let is_tag = t.len() > 1 && t[0] == '<' && t[1] == '@' && first_pos(t, '>') < t.len();
            &&& at <= r <= cs@.len()
            &&& r - at == if is_tag {
                first_pos(t, '>') + 1
            } else {
                0
            }
        }),
{
    let n: usize = cs.len();
    if n - at < 2 || cs[at] != '<' || cs[at + 1] != '@' {
        return at;
    }
    let ghost t = cs@.skip(at as int);
    let mut i: usize = at;
    while i < n && cs[i] != '>'
        invariant
            at <= i <= n == cs@.len(),
            t == cs@.skip(at as int),
            forall|j: int| 0 <= j < i - at ==> #[trigger] t[j] != '>',
        decreases n - i,
    {
        i += 1;
    }
    proof {
        lemma_first_pos(t, '>', i - at);
    }
    if i < n {
        i + 1
    } else {
        at
    }
}

/// Where the mention at a place ends; the place itself where none stands there.
fn mention_end(cs: &Vec<char>, at: usize) -> (r: usize)
    requires
        at <= cs@.len(),
    ensures
        at <= r <= cs@.len(),
        r - at == mention_len(cs@.skip(at as int)),
{
    let end: usize = tag_end(cs, at);
    let n: usize = cs.len();
    let ghost t = cs@.skip(at as int);
    if end > at || at == n || cs[at] != '@' {
        return end;
    }
    let mut i: usize = at;
    while i < n && !is_white(cs[i])
        invariant
            at <= i <= n == cs@.len(),
            t == cs@.skip(at as int),
            forall|j: int| 0 <= j < i - at ==> !white(#[trigger] t[j]),
        decreases n - i,
    {
        i += 1;
    }
    proof {
        lemma_word_len(t, i - at);
    }
    i
}

/// Where a text goes on behind the mentions at its head.
fn skip_mentions(cs: &Vec<char>) -> (r: usize)
    ensures
        r <= cs@.len(),
        cs@.skip(r as int) == after_mentions(cs@),
{
    let n: usize = cs.len();
    let mut at: usize = 0;
    proof {
        assert(cs@.skip(0) == cs@);
    }
    loop
        invariant
            at <= n == cs@.len(),
            after_mentions(cs@.skip(at as int)) == after_mentions(cs@),
        decreases n - at,
    {
        let end: usize = mention_end(cs, at);
        if end == at {
            return at;
        }
        let ghost t = cs@.skip(at as int);
        let ghost behind = cs@.skip(end as int);
        proof {
            assert(t.skip(end - at) == behind);
        }
        let mut i: usize = end;
        while i < n && is_white(cs[i])
            invariant
                end <= i <= n == cs@.len(),
                behind == cs@.skip(end as int),
                forall|j: int| 0 <= j < i - end ==> white(#[trigger] behind[j]),
            decreases n - i,
        {
            i += 1;
        }
        proof {
            lemma_trim_start(behind, i - end);
            assert(behind.skip(i - end) == cs@.skip(i as int));
        }
        at = i;
    }
}

/// Reads a user's text as a command or as plain text.
pub fn parse_message_content(content: &str) -> (r: IncomingContent)
    ensures
        r@ == qq_content(content@),
        is_lowered(r@, qq_command(content@)),
{
    let t = trimmed(content);
    let cs = chars_of(t);
    let n: usize = cs.len();
    let slash: usize = position(&cs, '/');
    if slash < n {
        let mut i: usize = 0;
        let mut only_mentions = true;
        while i < slash && only_mentions
            invariant
                i <= slash < cs@.len(),
                slash == first_pos(cs@, '/'),
                only_mentions ==> forall|j: int| 0 <= j < i ==> mention_char(#[trigger] cs@[j]),
                !only_mentions ==> exists|j: int| 0 <= j < slash && !mention_char(#[trigger] cs@[j]),
            decreases slash - i, only_mentions as int,
        {
            let c = cs[i];
            if is_white(c) || c == '@' || c == '<' || c == '>' || c == '!' || ('0' <= c && c
                <= '9') {
                i += 1;
            } else {
                proof {
                    assert(!mention_char(cs@[i as int]));
                }
                only_mentions = false;
            }
        }
        if only_mentions {
            let rest = t.substring_char(slash + 1, n);
            proof {
                assert(rest@ == t@.skip(slash + 1));
            }
            return super::parse_command(trimmed_start(rest));
        }
    }
    let at: usize = skip_mentions(&cs);
    let ghost u = after_mentions(t@);
    if at < n && cs[at] == '/' {
        let rest = t.substring_char(at + 1, n);
        proof {
            assert(u[0] == '/');
            assert(rest@ == u.skip(1));
        }
        return super::parse_command(trimmed_start(rest));
    }
    proof {
        if at < n {
            assert(u[0] == cs@[at as int]);
        }
        assert(t@.subrange(at as int, n as int) == u);
    }
    IncomingContent::Text(t.substring_char(at, n).to_string())
}

// ---------------------------------------------------------------------------
// The session with the gateway
// ---------------------------------------------------------------------------

pub const OP_DISPATCH: u8 = 0;

pub const OP_HEARTBEAT: u8 = 1;

pub const OP_IDENTIFY: u8 = 2;

pub const OP_RESUME: u8 = 6;

pub const OP_RECONNECT: u8 = 7;

pub const OP_INVALID_SESSION: u8 = 9;

pub const OP_HELLO: u8 = 10;

pub const OP_HEARTBEAT_ACK: u8 = 11;

/// The events that the bridge subscribes to: those of groups and of single
/// chats.
pub const INTENTS: u32 = 33_554_432;

/// How often the gateway wants to hear from its clients, where it does not say,
/// in milliseconds.
pub const DEFAULT_HEARTBEAT: u64 = 45000;

/// What is kept of a session, so that it can be taken up again.
#[derive(Debug)]
pub struct SessionState {
    session_id: Option<String>,
    last_sequence: Option<u64>,
}

/// What is kept of a session, as plain values.
pub struct SavedView {
    pub session_id: Option<Seq<char>>,
    pub last_sequence: Option<u64>,
}

impl View for SessionState {
    type V = SavedView;

    closed spec fn view(&self) -> SavedView {
        SavedView { session_id: opt_text(self.session_id), last_sequence: self.last_sequence }
    }
}

/// What is kept once a session has been set: its sequence number only where one
/// is given.
pub open spec fn saved(
    s: SavedView,
    session_id: Option<Seq<char>>,
    last_sequence: Option<u64>,
) -> SavedView {
    SavedView {
        session_id,
        last_sequence: match last_sequence {
            Some(n) => Some(n),
            None => s.last_sequence,
        },
    }
}

impl SessionState {
    /// No session.
    pub fn new() -> (r: Self)
        ensures
            r@ == (SavedView { session_id: None, last_sequence: None }),
    {
        SessionState { session_id: None, last_sequence: None }
    }

    /// The session, and the number of the last event that was seen.
    pub fn get(&self) -> (r: (Option<String>, Option<u64>))
        ensures
            opt_text(r.0) == self@.session_id,
            r.1 == self@.last_sequence,
    {
        (copy_opt(&self.session_id), self.last_sequence)
    }

    /// Keeps a session. The number stays as it is where none is given.
    pub fn set(&mut self, session_id: Option<String>, last_seq: Option<u64>)
        ensures
            final(self)@ == saved(old(self)@, opt_text(session_id), last_seq),
    {
        self.session_id = session_id;
        if let Some(seq) = last_seq {
            self.last_sequence = Some(seq);
        }
    }

    /// Takes note of the number of an event.
    pub fn update_sequence(&mut self, seq: u64)
        ensures
            final(self)@ == (SavedView { last_sequence: Some(seq), ..old(self)@ }),
    {
        self.last_sequence = Some(seq);
    }

    /// Forgets the session.
    pub fn clear(&mut self)
        ensures
            final(self)@ == (SavedView { session_id: None, last_sequence: None }),
    {
        self.session_id = None;
        self.last_sequence = None;
    }
}

/// A message of a user, as the gateway delivers it.
#[derive(Debug, Clone)]
pub struct QqMessage {
    pub id: String,
    pub content: String,
    pub user_openid: String,
    pub group_openid: Option<String>,
}

/// What a frame of the gateway carries.
#[derive(Debug)]
pub struct FrameData {
    pub heartbeat_interval: Option<u64>,
    pub session_id: Option<String>,
    /// The user's message, or why there is none to be read.
    pub message: Result<QqMessage, String>,
}

/// A frame of the gateway.
#[derive(Debug)]
pub struct Frame {
    pub op_code: u8,
    pub sequence: Option<u64>,
    pub event_type: Option<String>,
    pub data: Option<FrameData>,
}

/// What the gateway is sent.
#[derive(Debug, Clone)]
pub enum Outgoing {
    /// Begins a session.
    Identify { token: String, intents: u32, shard: u32, shards: u32, os: String, client: String },
    /// Takes a session up again.
    Resume { token: String, session_id: String, seq: u64 },
    /// A sign of life, with the number of the last event that was seen.
    Heartbeat { last_sequence: Option<u64> },
}

/// What the gateway is sent, as text.
pub enum OutgoingView {
    Identify { token: Seq<char>, intents: u32, shard: u32, shards: u32, os: Seq<char>, client: Seq<char> },
    Resume { token: Seq<char>, session_id: Seq<char>, seq: u64 },
    Heartbeat { last_sequence: Option<u64> },
}

impl View for Outgoing {
    type V = OutgoingView;

    open spec fn view(&self) -> OutgoingView {
        match *self {
            Outgoing::Identify { token, intents, shard, shards, os, client } => OutgoingView::Identify {
                token: token@,
                intents,
                shard,
                shards,
                os: os@,
                client: client@,
            },
            Outgoing::Resume { token, session_id, seq } => OutgoingView::Resume {
                token: token@,
                session_id: session_id@,
                seq,
            },
            Outgoing::Heartbeat { last_sequence } => OutgoingView::Heartbeat { last_sequence },
        }
    }
}

impl Outgoing {
    /// The code that the frame is sent under.
    pub fn op_code(&self) -> (r: u8)
        ensures
            r == match self@ {
                OutgoingView::Identify { .. } => OP_IDENTIFY,
                OutgoingView::Resume { .. } => OP_RESUME,
                OutgoingView::Heartbeat { .. } => OP_HEARTBEAT,
            },
    {
        match self {
            Outgoing::Identify { token: _, intents: _, shard: _, shards: _, os: _, client: _ } => OP_IDENTIFY,
            Outgoing::Resume { token: _, session_id: _, seq: _ } => OP_RESUME,
            Outgoing::Heartbeat { last_sequence: _ } => OP_HEARTBEAT,
        }
    }
}

/// How a token is presented.
pub open spec fn authorization(token: Seq<char>) -> Seq<char> {
    "QQBot "@ + token
}

/// The value of the header that presents a token.
pub fn authorization_header(token: &str) -> (r: String)
    ensures
        r@ == authorization(token@),
{
    cat("QQBot ", token)
}

/// What a connection opens with: it takes up the session that was kept, or
/// begins one.
pub open spec fn opening(s: SavedView, token: Seq<char>) -> OutgoingView {
    match s.session_id {
        Some(session_id) => OutgoingView::Resume {
            token: authorization(token),
            session_id,
            seq: match s.last_sequence {
                Some(n) => n,
                None => 0,
            },
        },
        None => OutgoingView::Identify {
            token: authorization(token),
            intents: INTENTS,
            shard: 0,
            shards: 1,
            os: "linux"@,
            client: "acpconnector"@,
        },
    }
}

/// Why a connection came to nothing.
#[derive(Debug, Clone)]
pub enum GatewayError {
    /// The first frame was no greeting.
    NotHello { op_code: u8 },
    /// The frame that should say that the session is ready is no event.
    NotDispatch { op_code: u8 },
    /// The session is not ready.
    NotReady { op_code: u8, event_type: Option<String> },
}

/// What `{:?}` writes for a text.
pub uninterp spec fn debug_text(s: Seq<char>) -> Seq<char>;

/// `format!("{:?}", ..)` of std, for a text: the text in quotation marks, with
/// its special characters escaped. It depends on the text alone. Which characters
/// are escaped, and how, is left unsaid.
#[verifier::external_body]
fn to_debug_text(s: &str) -> (r: String)
    ensures
        r@ == debug_text(s@),
{
    format!("{:?}", s)
}

/// How a session that is not ready reads: the code of its frame, and its event as
/// it is shown.
pub open spec fn not_ready_text(op_code: u8, shown: Option<Seq<char>>) -> Seq<char> {
    "Expected Ready/Resumed, got op="@ + decimal(op_code as nat) + " t="@ + (match shown {
        Some(event) => "Some("@ + event + ")"@,
        None => "None"@,
    })
}

/// Says that a session is not ready, with its event as it is shown.
pub fn describe_not_ready(op_code: u8, shown: &Option<String>) -> (r: String)
    ensures
        r@ == not_ready_text(op_code, opt_text(*shown)),
{
    let code = to_decimal(op_code as u64);
    let event = match shown {
        Some(event) => cat3("Some(", event.as_str(), ")"),
        None => "None".to_string(),
    };
    cat4("Expected Ready/Resumed, got op=", code.as_str(), " t=", event.as_str())
}

/// How such an error reads.
pub open spec fn gateway_error_text(e: GatewayError) -> Seq<char> {
    match e {
        GatewayError::NotHello { op_code } => "Expected Hello, got op="@ + decimal(op_code as nat),
        GatewayError::NotDispatch { op_code } => "Expected Ready dispatch, got op="@ + decimal(
            op_code as nat,
        ),
        GatewayError::NotReady { op_code, event_type } => not_ready_text(
            op_code,
            match event_type {
                Some(event) => Some(debug_text(event@)),
                None => None,
            },
        ),
    }
}

impl GatewayError {
    /// The error in words.
    pub fn message(&self) -> (r: String)
        ensures
            r@ == gateway_error_text(*self),
    {
        match self {
            GatewayError::NotHello { op_code } => {
                let code = to_decimal(*op_code as u64);
                cat("Expected Hello, got op=", code.as_str())
            },
            GatewayError::NotDispatch { op_code } => {
                let code = to_decimal(*op_code as u64);
                cat("Expected Ready dispatch, got op=", code.as_str())
            },
            GatewayError::NotReady { op_code, event_type } => {
                let shown = match event_type {
                    Some(event) => Some(to_debug_text(event.as_str())),
                    None => None,
                };
                describe_not_ready(*op_code, &shown)
            },
        }
    }
}

/// A connection to the gateway.
#[derive(Debug)]
pub struct Gateway {
    session_id: String,
    last_sequence: Option<u64>,
}

/// A connection to the gateway, as plain values.
pub struct GatewayView {
    pub session_id: Seq<char>,
    pub last_sequence: Option<u64>,
}

impl View for Gateway {
    type V = GatewayView;

    closed spec fn view(&self) -> GatewayView {
        GatewayView { session_id: self.session_id@, last_sequence: self.last_sequence }
    }
}

/// What a frame on a connection leads to.
#[derive(Debug, Clone)]
pub enum FrameStep {
    /// Nothing.
    Ignore,
    /// An event that is to be handled.
    Handle,
    /// The connection is to be closed.
    Close,
}

/// Takes the greeting: how often the gateway wants to hear from the client, in
/// milliseconds, and what it is to be sent.
pub fn on_hello(frame: &Frame, state: &SessionState, token: &str) -> (r: Result<
    (u64, Outgoing),
    GatewayError,
>)
    ensures
        match r {
            Ok((interval, out)) => {
                &&& frame.op_code == OP_HELLO
                &&& interval == hello_interval(*frame)
                &&& out@ == opening(state@, token@)
            },
            Err(e) => frame.op_code != OP_HELLO && e == (GatewayError::NotHello {
                op_code: frame.op_code,
            }),
        },
{
    if frame.op_code != OP_HELLO {
        return Err(GatewayError::NotHello { op_code: frame.op_code });
    }
    let interval: u64 = match &frame.data {
        Some(data) => match data.heartbeat_interval {
            Some(n) => n,
            None => DEFAULT_HEARTBEAT,
        },
        None => DEFAULT_HEARTBEAT,
    };
    let (session_id, last_sequence) = state.get();
    let token = authorization_header(token);
    let out = match session_id {
        Some(session_id) => Outgoing::Resume {
            token,
            session_id,
            seq: match last_sequence {
                Some(n) => n,
                None => 0,
            },
        },
        None => Outgoing::Identify {
            token,
            intents: INTENTS,
            shard: 0,
            shards: 1,
            os: "linux".to_string(),
            client: "acpconnector".to_string(),
        },
    };
    Ok((interval, out))
}

/// How often the gateway wants to hear from the client.
pub open spec fn hello_interval(frame: Frame) -> u64 {
    match frame.data {
        Some(data) => match data.heartbeat_interval {
            Some(n) => n,
            None => DEFAULT_HEARTBEAT,
        },
        None => DEFAULT_HEARTBEAT,
    }
}

/// The session that a frame names; an empty name where it names none.
pub open spec fn named_session(frame: Frame) -> Seq<char> {
    match frame.data {
        Some(data) => match opt_text(data.session_id) {
            Some(id) => id,
            None => ""@,
        },
        None => ""@,
    }
}

/// What is kept of the session after the frame that says whether it is ready.
pub open spec fn state_after_ready(s: SavedView, frame: Frame) -> SavedView {
    if opt_text(frame.event_type) == Some("READY"@) {
        if frame.op_code == OP_DISPATCH {
            saved(s, Some(named_session(frame)), None)
        } else {
            s
        }
    } else if opt_text(frame.event_type) == Some("RESUMED"@) {
        s
    } else if frame.op_code == OP_INVALID_SESSION {
        SavedView { session_id: None, last_sequence: None }
    } else {
        s
    }
}

/// Takes the frame that says whether the session is ready. A new session is
/// kept; one that the gateway calls invalid is forgotten.
pub fn on_ready(frame: &Frame, state: &mut SessionState) -> (r: Result<Gateway, GatewayError>)
    ensures
        final(state)@ == state_after_ready(old(state)@, *frame),
        match r {
            Ok(g) => {
                &&& g@.last_sequence == old(state)@.last_sequence
                &&& if opt_text(frame.event_type) == Some("READY"@) {
                    &&& frame.op_code == OP_DISPATCH
                    &&& g@.session_id == named_session(*frame)
                } else {
                    &&& opt_text(frame.event_type) == Some("RESUMED"@)
                    &&& g@.session_id == match old(state)@.session_id {
                        Some(id) => id,
                        None => ""@,
                    }
                }
            },
            Err(e) => if opt_text(frame.event_type) == Some("READY"@) {
                &&& frame.op_code != OP_DISPATCH
                &&& e == (GatewayError::NotDispatch { op_code: frame.op_code })
            } else {
                &&& opt_text(frame.event_type) != Some("RESUMED"@)
                &&& e matches GatewayError::NotReady { op_code, event_type }
                &&& op_code == frame.op_code
                &&& opt_text(event_type) == opt_text(frame.event_type)
            },
        },
{
    let (existing, last_sequence) = state.get();
    if is_text(&frame.event_type, "READY") {
        if frame.op_code != OP_DISPATCH {
            return Err(GatewayError::NotDispatch { op_code: frame.op_code });
        }
        let session_id = match &frame.data {
            Some(data) => match &data.session_id {
                Some(id) => id.clone(),
                None => "".to_string(),
            },
            None => "".to_string(),
        };
        state.set(Some(session_id.clone()), None);
        Ok(Gateway { session_id, last_sequence })
    } else if is_text(&frame.event_type, "RESUMED") {
        proof {
            reveal_strlit("READY");
            reveal_strlit("RESUMED");
            assert("READY"@.len() != "RESUMED"@.len());
        }
        let session_id = match existing {
            Some(id) => id,
            None => "".to_string(),
        };
        Ok(Gateway { session_id, last_sequence })
    } else {
        if frame.op_code == OP_INVALID_SESSION {
            state.clear();
        }
        Err(
            GatewayError::NotReady {
                op_code: frame.op_code,
                event_type: copy_opt(&frame.event_type),
            },
        )
    }
}

impl Gateway {
    /// The sign of life that is due.
    pub fn heartbeat(&self) -> (r: Outgoing)
        ensures
            r@ == (OutgoingView::Heartbeat { last_sequence: self@.last_sequence }),
    {
        Outgoing::Heartbeat { last_sequence: self.last_sequence }
    }

    /// Takes a frame of a connection that is open.
    pub fn on_frame(&mut self, frame: &Frame, state: &mut SessionState) -> (r: FrameStep)
        ensures
            r == frame_step(*frame),
            final(self)@ == gateway_after_frame(old(self)@, *frame),
            final(state)@ == state_after_frame(old(state)@, *frame),
    {
        if frame.op_code == OP_HEARTBEAT_ACK {
            FrameStep::Ignore
        } else if frame.op_code == OP_DISPATCH {
            if let Some(seq) = frame.sequence {
                self.last_sequence = Some(seq);
                state.update_sequence(seq);
            }
            FrameStep::Handle
        } else if frame.op_code == OP_RECONNECT {
            FrameStep::Close
        } else if frame.op_code == OP_INVALID_SESSION {
            state.clear();
            FrameStep::Close
        } else {
            FrameStep::Ignore
        }
    }

    /// Keeps the session of a connection that has ended, so that it can be taken
    /// up again.
    pub fn close(self, state: &mut SessionState)
        ensures
            final(state)@ == saved(old(state)@, Some(self@.session_id), self@.last_sequence),
    {
        state.set(Some(self.session_id), self.last_sequence);
    }
}

/// What a frame on a connection leads to.
pub open spec fn frame_step(frame: Frame) -> FrameStep {
    if frame.op_code == OP_DISPATCH {
        FrameStep::Handle
    } else if frame.op_code == OP_RECONNECT || frame.op_code == OP_INVALID_SESSION {
        FrameStep::Close
    } else {
        FrameStep::Ignore
    }
}

/// A connection after a frame.
pub open spec fn gateway_after_frame(g: GatewayView, frame: Frame) -> GatewayView {
    if frame.op_code == OP_DISPATCH && frame.sequence is Some {
        GatewayView { last_sequence: frame.sequence, ..g }
    } else {
        g
    }
}

/// What is kept of the session after a frame.
pub open spec fn state_after_frame(s: SavedView, frame: Frame) -> SavedView {
    if frame.op_code == OP_DISPATCH && frame.sequence is Some {
        SavedView { last_sequence: frame.sequence, ..s }
    } else if frame.op_code == OP_INVALID_SESSION {
        SavedView { session_id: None, last_sequence: None }
    } else {
        s
    }
}

// ---------------------------------------------------------------------------
// Events
// ---------------------------------------------------------------------------

/// What an event leads to.
#[derive(Debug, Clone)]
pub enum EventStep {
    /// Nothing.
    Ignore,
    /// A user's message.
    Message(IngressMessage),
    /// The event carries nothing.
    MissingData,
    /// The message cannot be read.
    Unreadable(String),
}

impl EventStep {
    /// What went wrong with the event, in words, if anything did.
    pub fn error_message(&self) -> (r: Option<String>)
        ensures
            opt_text(r) == match *self {
                EventStep::MissingData => Some("Missing event data"@),
                EventStep::Unreadable(why) => Some(why@),
                _ => None,
            },
    {
        match self {
            EventStep::MissingData => Some("Missing event data".to_string()),
            EventStep::Unreadable(why) => Some(why.clone()),
            _ => None,
        }
    }
}

/// The chat of a message: the user's own, or the group's.
pub open spec fn chat_of_message(event_type: Seq<char>, msg: QqMessage) -> Seq<char> {
    if event_type == "C2C_MESSAGE_CREATE"@ {
        "c2c:"@ + msg.user_openid@
    } else {
        "group:"@ + (match opt_text(msg.group_openid) {
            Some(id) => id,
            None => ""@,
        })
    }
}

/// Whether an event is a message of a user.
pub open spec fn is_message_event(event_type: Option<Seq<char>>) -> bool {
    event_type == Some("C2C_MESSAGE_CREATE"@) || event_type == Some("GROUP_AT_MESSAGE_CREATE"@)
}

/// The last message of each chat, to which answers refer.
#[derive(Debug)]
pub struct RecentMessages {
    ids: Table<String, String>,
}

impl View for RecentMessages {
    type V = Map<Seq<char>, Seq<char>>;

    closed spec fn view(&self) -> Map<Seq<char>, Seq<char>> {
        self.ids@
    }
}

impl RecentMessages {
    /// Each chat has one last message at most.
    pub closed spec fn wf(&self) -> bool {
        self.ids.wf()
    }

    /// No messages.
    pub fn new() -> (r: Self)
        ensures
            r.wf(),
            r@ == Map::<Seq<char>, Seq<char>>::empty(),
    {
        RecentMessages { ids: Table::new() }
    }
}

/// Takes an event of the gateway for a channel: the message that it carries, if
/// it is one. The message's number is kept as the last of its chat.
pub fn handle_event(frame: &Frame, channel_name: &str, recent: &mut RecentMessages) -> (r: EventStep)
    requires
        old(recent).wf(),
    ensures
        final(recent).wf(),
        match frame.data {
            None => r is MissingData && final(recent)@ == old(recent)@,
            Some(data) => if !is_message_event(opt_text(frame.event_type)) {
                r is Ignore && final(recent)@ == old(recent)@
            } else {
                match data.message {
                    Ok(msg) => {
                        let chat = chat_of_message(opt_text(frame.event_type)->0, msg);
                        &&& r matches EventStep::Message(m)
                        &&& m.channel_name@ == channel_name@
                        &&& m.chat_id@ == chat
                        &&& m.content@ == qq_content(msg.content@)
                        &&& is_lowered(m.content@, qq_command(msg.content@))
                        &&& final(recent)@ == old(recent)@.insert(chat, msg.id@)
                    },
                    Err(why) => {
                        &&& r matches EventStep::Unreadable(e)
                        &&& e@ == why@
                        &&& final(recent)@ == old(recent)@
                    },
                }
            },
        },
{
    let data = match &frame.data {
        Some(data) => data,
        None => {
            return EventStep::MissingData;
        },
    };
    let single = is_text(&frame.event_type, "C2C_MESSAGE_CREATE");
    if !single && !is_text(&frame.event_type, "GROUP_AT_MESSAGE_CREATE") {
        return EventStep::Ignore;
    }
    let msg = match &data.message {
        Ok(msg) => msg,
        Err(why) => {
            return EventStep::Unreadable(why.clone());
        },
    };
    let chat = if single {
        cat("c2c:", msg.user_openid.as_str())
    } else {
        match &msg.group_openid {
            Some(id) => cat("group:", id.as_str()),
            None => cat("group:", ""),
        }
    };
    recent.ids.insert(chat.clone(), msg.id.clone());
    let content = match parse_message_content(msg.content.as_str()) {
        IncomingContent::Text(text) => IngressContent::Text(text),
        IncomingContent::Command { name, args } => IngressContent::Command { name, args },
    };
    EventStep::Message(
        IngressMessage { channel_name: channel_name.to_string(), chat_id: ChatId(chat), content },
    )
}

// ---------------------------------------------------------------------------
// Messages to users
// ---------------------------------------------------------------------------

/// How many characters a message may have.
pub const MAX_MESSAGE_LENGTH: usize = 2000;

/// How long a text may stand incomplete before it is sent as it is.
pub const STREAM_TIMEOUT: u64 = 30 * SECOND;

/// A request that sends a message.
#[derive(Debug, Clone)]
pub struct SendPlan {
    pub url: String,
    pub content: String,
    pub msg_seq: u64,
    /// The message that this one answers.
    pub msg_id: Option<String>,
}

/// Where messages to a chat are sent; nowhere if it is no chat of this platform.
pub open spec fn send_url(chat: Seq<char>) -> Option<Seq<char>> {
    match (after_prefix(chat, "c2c:"@), after_prefix(chat, "group:"@)) {
        (Some(id), _) => Some("https://api.sgroup.qq.com/v2/users/"@ + id + "/messages"@),
        (None, Some(id)) => Some("https://api.sgroup.qq.com/v2/groups/"@ + id + "/messages"@),
        (None, None) => None,
    }
}

/// The number of the next message; each call gives the next, and the count
/// starts over when all have been used.
pub fn generate_msg_seq(counter: &mut u64) -> (r: u64)
    ensures
        r == *old(counter),
        *final(counter) == if *old(counter) == u64::MAX {
            0
        } else {
            (*old(counter) + 1) as u64
        },
{
    let seq: u64 = *counter;
    *counter = if seq == u64::MAX {
        0
    } else {
        seq + 1
    };
    seq
}

/// Plans how a text is sent to a chat.
pub fn send_message(
    chat_id: &ChatId,
    content: &str,
    recent: &RecentMessages,
    counter: &mut u64,
) -> (r: Result<SendPlan, String>)
    requires
        recent.wf(),
    ensures
        match r {
            Ok(plan) => {
                &&& send_url(chat_id@) == Some(plan.url@)
                &&& plan.content@ == clipped(content@, MAX_MESSAGE_LENGTH as int)
                &&& plan.msg_seq == *old(counter)
                &&& opt_text(plan.msg_id) == if recent@.contains_key(chat_id@) {
                    Some(recent@[chat_id@])
                } else {
                    None
                }
                &&& *final(counter) == if *old(counter) == u64::MAX {
                    0
                } else {
                    (*old(counter) + 1) as u64
                }
            },
            Err(e) => {
                &&& send_url(chat_id@) is None
                &&& e@ == "Invalid chat_id format: "@ + chat_id@
                &&& *final(counter) == *old(counter)
            },
        },
{
    let url = match strip_prefix(chat_id.0.as_str(), "c2c:") {
        Some(id) => cat3("https://api.sgroup.qq.com/v2/users/", id.as_str(), "/messages"),
        None => match strip_prefix(chat_id.0.as_str(), "group:") {
            Some(id) => cat3("https://api.sgroup.qq.com/v2/groups/", id.as_str(), "/messages"),
            None => {
                return Err(cat("Invalid chat_id format: ", chat_id.0.as_str()));
            },
        },
    };
    let msg_id = match recent.ids.get(&chat_id.0) {
        Some(id) => Some(id.clone()),
        None => None,
    };
    Ok(
        SendPlan {
            url,
            content: clip(content, MAX_MESSAGE_LENGTH),
            msg_seq: generate_msg_seq(counter),
            msg_id,
        },
    )
}

/// Takes out the texts that have stood incomplete for too long.
pub fn check_and_flush_timeouts(buffers: &mut StreamBuffers, now: u64) -> (r: Vec<Flushed>)
    requires
        old(buffers).wf(),
    ensures
        final(buffers).wf(),
        final(buffers)@ == old(buffers)@.remove_keys(stale_set(old(buffers)@, now, STREAM_TIMEOUT)),
        are_texts_of(
            flushed_views(r@),
            old(buffers)@,
            stale_set(old(buffers)@, now, STREAM_TIMEOUT),
        ),
{
    buffers.flush_expired(now, STREAM_TIMEOUT)
}

/// How long a token lasts, in seconds, by what the platform says of it; not at
/// all where that is no number.
pub fn token_lifetime(expires_in: &str) -> (r: u64)
    ensures
        match unsigned_value(expires_in@) {
            Some(n) => r == if n <= u64::MAX {
                n
            } else {
                0
            },
            None => r == 0,
        },
{
    match parse_u64(expires_in) {
        Some(n) => n,
        None => 0,
    }
}

// ---------------------------------------------------------------------------
// The registry of bots
// ---------------------------------------------------------------------------

/// Which channel each bot of the platform belongs to.
pub struct BotRegistry {
    channels: DashMap<String, String>,
}

impl View for BotRegistry {
    type V = Map<Seq<char>, Seq<char>>;

    closed spec fn view(&self) -> Map<Seq<char>, Seq<char>> {
        texts_in(self.channels)
    }
}

impl BotRegistry {
    /// No bots.
    pub fn new() -> (r: Self)
        ensures
            r@ == Map::<Seq<char>, Seq<char>>::empty(),
    {
        let r = BotRegistry { channels: new_texts() };
        assert(r@ =~= Map::<Seq<char>, Seq<char>>::empty());
        r
    }

    /// Enters a channel's bot, if the platform said which it is; whether it did.
    pub fn register(&mut self, bot_id: &Option<String>, channel_name: &str) -> (r: bool)
        ensures
            r == (*bot_id is Some),
            final(self)@ == match opt_text(*bot_id) {
                Some(id) => old(self)@.insert(id, channel_name@),
                None => old(self)@,
            },
    {
        match bot_id {
            Some(id) => {
                insert_text(&mut self.channels, id.clone(), channel_name.to_string());
                true
            },
            None => false,
        }
    }
}

// ---------------------------------------------------------------------------
// Laws
// ---------------------------------------------------------------------------

/// A connection that ended in the ordinary way is taken up again by the next
/// one, from the last event that was seen.
pub proof fn sessions_are_resumed(s: SavedView, g: GatewayView, token: Seq<char>)
    ensures
        opening(saved(s, Some(g.session_id), g.last_sequence), token) == (OutgoingView::Resume {
            token: authorization(token),
            session_id: g.session_id,
            seq: match (g.last_sequence, s.last_sequence) {
                (Some(n), _) => n,
                (None, Some(n)) => n,
                (None, None) => 0,
            },
        }),
{
}

/// After the gateway has refused a session while it was being taken up, the next
/// connection begins a new one.
pub proof fn refused_sessions_are_not_resumed(s: SavedView, frame: Frame, token: Seq<char>)
    requires
        frame.op_code == OP_INVALID_SESSION,
        opt_text(frame.event_type) != Some("READY"@),
        opt_text(frame.event_type) != Some("RESUMED"@),
    ensures
        opening(state_after_ready(s, frame), token) is Identify,
{
}

/// Messages are answered where they came from: what is sent to the chat of a
/// message goes to its user, or to its group.
pub proof fn messages_can_be_answered(event_type: Seq<char>, msg: QqMessage)
    ensures
        send_url(chat_of_message(event_type, msg)) == Some(
            if event_type == "C2C_MESSAGE_CREATE"@ {
                "https://api.sgroup.qq.com/v2/users/"@ + msg.user_openid@ + "/messages"@
            } else {
                "https://api.sgroup.qq.com/v2/groups/"@ + (match opt_text(msg.group_openid) {
                    Some(id) => id,
                    None => ""@,
                }) + "/messages"@
            },
        ),
{
    reveal_strlit("c2c:");
    reveal_strlit("group:");
    let chat = chat_of_message(event_type, msg);
    if event_type == "C2C_MESSAGE_CREATE"@ {
        assert(chat.subrange(0, 4) == "c2c:"@);
        assert(chat.skip(4) == msg.user_openid@);
    } else {
        assert(chat.subrange(0, 6) == "group:"@);
        assert(chat[0] != "c2c:"@[0]);
        let id = match opt_text(msg.group_openid) {
            Some(id) => id,
            None => ""@,
        };
        assert(chat.skip(6) == id);
    }
}

/// What mentions are made of does not hide a command that follows it: the command
/// is read as it would be read without it.
pub proof fn mention_signs_do_not_hide_commands(mentions: Seq<char>, rest: Seq<char>)
    requires
        forall|i: int| 0 <= i < mentions.len() ==> mention_char(#[trigger] mentions[i]),
    ensures
        qq_content(mentions + "/"@ + rest) == qq_content("/"@ + rest),
        qq_content("/"@ + rest) is Command,
{
    reveal_strlit("/");
    let command = "/"@ + rest;
    assert(mentions + "/"@ + rest == mentions + command);
    assert(command[0] == '/');
    lemma_trim_start_before(mentions, command);
    let m = trim_start(mentions);
    lemma_trim_start_len(mentions);
    lemma_trim_end_behind(m, command);
    lemma_trim_end_props(command);
    lemma_trim_end_visible(command);
    let x = trim_end(command);
    assert(x[0] == '/');
    assert(trim_start(command) == command);
    assert(trim(command) == x);
    assert(trim(mentions + command) == m + x);
    lemma_first_pos(x, '/', 0);
    let t = m + x;
    assert forall|j: int| 0 <= j < m.len() implies #[trigger] t[j] != '/' && mention_char(t[j]) by {
        assert(t[j] == mentions[mentions.len() - m.len() + j]);
    }
    assert(t[m.len() as int] == '/');
    lemma_first_pos(t, '/', m.len() as int);
    assert(t.skip(m.len() as int + 1) == x.skip(1));
}

/// Whether a text is a mention by tag.
pub open spec fn is_tag(m: Seq<char>) -> bool {
    &&& m.len() > 2
    &&& m[0] == '<'
    &&& m[1] == '@'
    &&& m.last() == '>'
    &&& forall|i: int| 0 <= i < m.len() - 1 ==> #[trigger] m[i] != '>'
}

/// Whether a text is a mention by name.
pub open spec fn is_name(m: Seq<char>) -> bool {
    m.len() > 0 && m[0] == '@' && forall|i: int| 0 <= i < m.len() ==> !white(#[trigger] m[i])
}

/// Whether a text is a mention without a slash, and another the white space behind
/// it, which a mention by name has to have.
pub open spec fn is_mention(m: (Seq<char>, Seq<char>)) -> bool {
    &&& is_tag(m.0) || (is_name(m.0) && m.1.len() > 0)
    &&& forall|i: int| 0 <= i < m.0.len() ==> #[trigger] m.0[i] != '/'
    &&& forall|i: int| 0 <= i < m.1.len() ==> white(#[trigger] m.1[i])
}

/// A text with some mentions before it, each with the white space behind it.
pub open spec fn with_mentions(mentions: Seq<(Seq<char>, Seq<char>)>, rest: Seq<char>) -> Seq<char>
    decreases mentions.len(),
{
    if mentions.len() == 0 {
        rest
    } else {
        mentions[0].0 + (mentions[0].1 + with_mentions(mentions.skip(1), rest))
    }
}

/// A mention is as long as it is, whatever follows it.
proof fn lemma_mention_len(m: Seq<char>, tail: Seq<char>)
    requires
        is_tag(m) || (is_name(m) && (tail.len() > 0 ==> white(tail[0]))),
    ensures
        mention_len(m + tail) == m.len(),
{
    let t = m + tail;
    if is_tag(m) {
        lemma_first_pos(t, '>', m.len() - 1);
    } else {
        lemma_word_len(t, m.len() as int);
    }
}

/// What one mention at the head of a text changes: nothing but that it stands
/// there.
proof fn lemma_with_mention(m: (Seq<char>, Seq<char>), x: Seq<char>)
    requires
        is_mention(m),
    ensures
        ({
            let t = trim(m.0 + (m.1 + x));
            let s = trim(x);
            &&& after_mentions(t) == after_mentions(s)
            &&& mentions_then_slash(t) ==> mentions_then_slash(s) && t.skip(first_pos(t, '/') + 1)
                == s.skip(first_pos(s, '/') + 1)
        }),
{
    let (a, w) = m;
    let text = a + (w + x);
    let t = trim(text);
    let s = trim(x);
    assert(!white(a[0]) && !white(a.last()));
    assert(text[0] == a[0]);
    assert(trim_start(text) == text);
    assert(trim_end(a) == a);
    lemma_trim_end_behind(a, w + x);
    lemma_trim_end_behind(w, x);
    lemma_trim_white(w);
    let v = lemma_trim_parts(x);
    if s.len() == 0 {
        assert(t == a);
        let none = Seq::<char>::empty();
        lemma_mention_len(a, none);
        assert(a + none == a);
        assert(a.skip(a.len() as int) == none);
        assert(s == none);
        lemma_first_pos(a, '/', a.len() as int);
    } else {
        let blank = w + v;
        let tail = w + (v + s);
        assert(t == a + tail);
        assert(tail == blank + s);
        assert forall|i: int| 0 <= i < blank.len() implies white(#[trigger] blank[i]) by {
            if i < w.len() {
                assert(blank[i] == w[i]);
            } else {
                assert(blank[i] == v[i - w.len()]);
            }
        }
        if w.len() > 0 {
            assert(tail[0] == w[0]);
        }
        lemma_mention_len(a, tail);
        assert(t.skip(a.len() as int) == tail);
        lemma_trim_start_before(blank, s);
        lemma_trim_white(blank);
        assert(trim_start(tail) == s);
        let p = a + blank;
        assert(t == p + s);
        assert forall|j: int| 0 <= j < p.len() implies #[trigger] p[j] != '/' by {
            if j < a.len() {
                assert(p[j] == a[j]);
            } else {
                assert(p[j] == blank[j - a.len()]);
            }
        }
        lemma_first_pos_behind(p, s, '/');
        if mentions_then_slash(t) {
            let k = first_pos(s, '/');
            lemma_first_pos_bounds(s, '/');
            assert forall|i: int| 0 <= i < k implies mention_char(#[trigger] s[i]) by {
                assert(t[p.len() + i] == s[i]);
            }
            assert(t.skip(p.len() + k + 1) == s.skip(k + 1));
        }
    }
}

proof fn lemma_with_mentions(mentions: Seq<(Seq<char>, Seq<char>)>, rest: Seq<char>)
    requires
        forall|i: int| 0 <= i < mentions.len() ==> is_mention(#[trigger] mentions[i]),
    ensures
        ({
            let t = trim(with_mentions(mentions, rest));
            let s = trim(rest);
            &&& after_mentions(t) == after_mentions(s)
            &&& mentions_then_slash(t) ==> mentions_then_slash(s) && t.skip(first_pos(t, '/') + 1)
                == s.skip(first_pos(s, '/') + 1)
        }),
    decreases mentions.len(),
{
    if mentions.len() > 0 {
        let others = mentions.skip(1);
        assert forall|i: int| 0 <= i < others.len() implies is_mention(#[trigger] others[i]) by {
            assert(others[i] == mentions[i + 1]);
        }
        lemma_with_mentions(others, rest);
        lemma_with_mention(mentions[0], with_mentions(others, rest));
    }
}

/// Mentions at the head of a text hide nothing, by tag or by name and however
/// many they are: what follows them is read as it would be read without them, be
/// it a command or plain text. Left out are texts that are commands only by signs
/// before their slash, such as a lone digit.
pub proof fn mentions_do_not_hide_commands(
    mentions: Seq<(Seq<char>, Seq<char>)>,
    rest: Seq<char>,
)
    requires
        forall|i: int| 0 <= i < mentions.len() ==> is_mention(#[trigger] mentions[i]),
        mentions_then_slash(trim(rest)) ==> trim(rest)[0] == '/',
    ensures
        qq_content(with_mentions(mentions, rest)) == qq_content(rest),
        trim(rest).len() > 0 && trim(rest)[0] == '/' ==> qq_content(rest) == command_in(
            trim_start(trim(rest).skip(1)),
        ),
        !mentions_then_slash(trim(rest)) && mention_len(trim(rest)) == 0 && (trim(rest).len() > 0
            ==> trim(rest)[0] != '/') ==> qq_content(rest) == ContentView::Text(trim(rest)),
{
    let s = trim(rest);
    lemma_with_mentions(mentions, rest);
    if s.len() > 0 && s[0] == '/' {
        lemma_first_pos(s, '/', 0);
    }
}

/// A connection, and what is kept of its session, after some frames.
pub open spec fn after_frames(g: GatewayView, s: SavedView, frames: Seq<Frame>) -> (
    GatewayView,
    SavedView,
)
    decreases frames.len(),
{
    if frames.len() == 0 {
        (g, s)
    } else {
        let (h, t) = after_frames(g, s, frames.drop_last());
        (gateway_after_frame(h, frames.last()), state_after_frame(t, frames.last()))
    }
}

/// A connection that breaks off at any moment loses nothing: as long as the
/// gateway does not call the session invalid, what is kept is at all times what
/// an orderly end would keep.
pub proof fn broken_connections_lose_nothing(g: GatewayView, s: SavedView, frames: Seq<Frame>)
    requires
        s.session_id == Some(g.session_id),
        s.last_sequence == g.last_sequence,
        forall|i: int|
            0 <= i < frames.len() ==> (#[trigger] frames[i]).op_code != OP_INVALID_SESSION,
    ensures
        ({
            let (h, t) = after_frames(g, s, frames);
            &&& h.session_id == g.session_id
            &&& t == saved(t, Some(h.session_id), h.last_sequence)
            &&& t.last_sequence == h.last_sequence
        }),
    decreases frames.len(),
{
    if frames.len() > 0 {
        let front = frames.drop_last();
        assert forall|i: int| 0 <= i < front.len() implies (#[trigger] front[i]).op_code
            != OP_INVALID_SESSION by {
            assert(front[i] == frames[i]);
        }
        broken_connections_lose_nothing(g, s, front);
        assert(frames.last() == frames[frames.len() - 1]);
    }
}

/// A connection without a session begins one: it asks for the events of groups and
/// of single chats, as the only one of its bot, and says what it is. One with a
/// session names it with the number of the last event, or zero. Both present the
/// token.
pub proof fn connections_present_themselves(s: SavedView, token: Seq<char>)
    ensures
        s.session_id is None ==> opening(s, token) == (OutgoingView::Identify {
            token: "QQBot "@ + token,
            intents: 0x200_0000u32,
            shard: 0,
            shards: 1,
            os: "linux"@,
            client: "acpconnector"@,
        }),
        s.session_id matches Some(id) ==> opening(s, token) == (OutgoingView::Resume {
            token: "QQBot "@ + token,
            session_id: id,
            seq: if s.last_sequence is Some {
                s.last_sequence->0
            } else {
                0
            },
        }),
        authorization(token) == "QQBot "@ + token,
{
}

/// What the codes of the frames are, and how often the gateway is told that the
/// client is alive where it does not ask for anything else.
pub proof fn frames_are_told_apart_by_their_codes(frame: Frame)
    ensures
        OP_DISPATCH == 0 && OP_HEARTBEAT == 1 && OP_IDENTIFY == 2 && OP_RESUME == 6 && OP_RECONNECT
            == 7 && OP_INVALID_SESSION == 9 && OP_HELLO == 10 && OP_HEARTBEAT_ACK == 11,
        frame.data is None || frame.data->0.heartbeat_interval is None ==> hello_interval(frame)
            == 45_000,
        frame.data is Some && frame.data->0.heartbeat_interval is Some ==> hello_interval(frame)
            == frame.data->0.heartbeat_interval->0,
{
}

/// Events are handled, and their numbers are noted both on the connection and for
/// the time after it. A connection ends when the gateway wants a new one or calls
/// the session invalid, and only the second forgets the session. Everything else
/// changes nothing.
pub proof fn frames_lead_where_their_codes_say(g: GatewayView, s: SavedView, frame: Frame)
    ensures
        frame_step(frame) is Handle <==> frame.op_code == 0,
        frame_step(frame) is Close <==> frame.op_code == 7 || frame.op_code == 9,
        gateway_after_frame(g, frame).session_id == g.session_id,
        frame.op_code == 0 ==> (match frame.sequence {
            Some(n) => gateway_after_frame(g, frame).last_sequence == Some(n) && state_after_frame(
                s,
                frame,
            ).last_sequence == Some(n) && state_after_frame(s, frame).session_id == s.session_id,
            None => gateway_after_frame(g, frame) == g && state_after_frame(s, frame) == s,
        }),
        frame.op_code != 0 ==> gateway_after_frame(g, frame) == g,
        frame.op_code == 9 ==> state_after_frame(s, frame).session_id is None && state_after_frame(
            s,
            frame,
        ).last_sequence is None,
        frame.op_code != 0 && frame.op_code != 9 ==> state_after_frame(s, frame) == s,
{
}

/// A session that is ready is kept under the name that the gateway gave it, and
/// the number of the last event stays. One that was taken up again stays as it was
/// kept, and so does what is kept when anything but an invalid session comes.
pub proof fn ready_sessions_are_kept(s: SavedView, frame: Frame, id: Seq<char>, n: u64)
    requires
        frame.data is Some && opt_text(frame.data->0.session_id) == Some(id),
    ensures
        named_session(frame) == id,
        opt_text(frame.event_type) == Some("READY"@) && frame.op_code == 0 ==> state_after_ready(
            s,
            frame,
        ) == (SavedView { session_id: Some(id), last_sequence: s.last_sequence }),
        opt_text(frame.event_type) == Some("READY"@) && frame.op_code != 0 ==> state_after_ready(
            s,
            frame,
        ) == s,
        opt_text(frame.event_type) == Some("RESUMED"@) ==> state_after_ready(s, frame) == s,
        opt_text(frame.event_type) != Some("READY"@) && frame.op_code != 9 ==> state_after_ready(
            s,
            frame,
        ) == s,
        saved(s, Some(id), Some(n)) == (SavedView { session_id: Some(id), last_sequence: Some(n) }),
        saved(s, Some(id), None) == (SavedView {
            session_id: Some(id),
            last_sequence: s.last_sequence,
        }),
{
    reveal_strlit("READY");
    reveal_strlit("RESUMED");
    assert("READY"@.len() != "RESUMED"@.len());
}

/// A frame that names no session is taken to name an empty one.
pub proof fn nameless_sessions_have_an_empty_name(frame: Frame)
    requires
        frame.data is None || frame.data->0.session_id is None,
    ensures
        named_session(frame).len() == 0,
{
    reveal_strlit("");
}

/// Messages are of two kinds: those of single users, whose chat is named after the
/// user, and those of groups, whose chat is named after the group. No other event
/// is a message.
pub proof fn chats_are_named_after_users_and_groups(event_type: Seq<char>, msg: QqMessage)
    ensures
        chat_of_message("C2C_MESSAGE_CREATE"@, msg) == "c2c:"@ + msg.user_openid@,
        msg.group_openid matches Some(group) ==> chat_of_message("GROUP_AT_MESSAGE_CREATE"@, msg)
            == "group:"@ + group@,
        is_message_event(Some(event_type)) <==> event_type == "C2C_MESSAGE_CREATE"@ || event_type
            == "GROUP_AT_MESSAGE_CREATE"@,
        !is_message_event(None),
{
    reveal_strlit("C2C_MESSAGE_CREATE");
    reveal_strlit("GROUP_AT_MESSAGE_CREATE");
    assert("C2C_MESSAGE_CREATE"@.len() != "GROUP_AT_MESSAGE_CREATE"@.len());
}

/// Messages are sent to the users and groups that chats are named after, and
/// nowhere where a chat is named after neither.
pub proof fn messages_go_to_users_and_groups(id: Seq<char>, chat: Seq<char>)
    ensures
        send_url("c2c:"@ + id) == Some(
            "https://api.sgroup.qq.com/v2/users/"@ + id + "/messages"@,
        ),
        send_url("group:"@ + id) == Some(
            "https://api.sgroup.qq.com/v2/groups/"@ + id + "/messages"@,
        ),
        !"c2c:"@.is_prefix_of(chat) && !"group:"@.is_prefix_of(chat) ==> send_url(chat) is None,
{
    reveal_strlit("c2c:");
    reveal_strlit("group:");
    crate::split::prefixes_are_taken_off("c2c:"@, id, chat);
    crate::split::prefixes_are_taken_off("group:"@, id, chat);
    assert(("group:"@ + id)[0] == 'g');
    assert("c2c:"@[0] == 'c');
}

/// A message has no more than two thousand characters: one that has more is cut
/// off behind three dots, and any other is sent as it is. Texts that stand
/// incomplete are sent after half a minute.
pub proof fn messages_keep_to_the_limits(content: Seq<char>)
    ensures
        content.len() <= 2000 ==> clipped(content, MAX_MESSAGE_LENGTH as int) == content,
        content.len() > 2000 ==> clipped(content, MAX_MESSAGE_LENGTH as int) == content.take(1997)
            + seq!['.', '.', '.'],
        STREAM_TIMEOUT == 30_000_000_000,
{
    crate::split::clipped_texts_end_in_dots(content, 2000);
}

/// Why a connection came to nothing is said with the code that came.
pub proof fn gateway_errors_name_the_code(code: u8, event: String)
    ensures
        gateway_error_text(GatewayError::NotHello { op_code: code }) == "Expected Hello, got op="@
            + decimal(code as nat),
        gateway_error_text(GatewayError::NotDispatch { op_code: code })
            == "Expected Ready dispatch, got op="@ + decimal(code as nat),
        gateway_error_text(GatewayError::NotReady { op_code: code, event_type: None })
            == "Expected Ready/Resumed, got op="@ + decimal(code as nat) + " t="@ + "None"@,
        gateway_error_text(GatewayError::NotReady { op_code: code, event_type: Some(event) })
            == "Expected Ready/Resumed, got op="@ + decimal(code as nat) + " t="@ + ("Some("@
            + debug_text(event@) + ")"@),
{
}

/// A slash behind nothing but blanks, digits and the signs of mentions begins a
/// command, whose name is the first word behind the slash.
pub proof fn commands_stand_behind_signs(signs: Seq<char>, name: Seq<char>)
    requires
        forall|i: int|
            0 <= i < signs.len() ==> #[trigger] signs[i] == ' ' || signs[i] == '@' || signs[i] == '<'
                || signs[i] == '>' || signs[i] == '!' || '0' <= signs[i] <= '9',
        name.len() > 0,
        forall|i: int| 0 <= i < name.len() ==> !white(#[trigger] name[i]),
    ensures
        qq_content(signs + "/"@ + name) is Command,
        qq_command(signs + "/"@ + name) == Some(name),
{
    reveal_strlit("/");
    assert forall|i: int| 0 <= i < signs.len() implies mention_char(#[trigger] signs[i]) by {}
    mention_signs_do_not_hide_commands(signs, name);
    let command = "/"@ + name;
    let text = signs + command;
    assert(signs + "/"@ + name == text);
    lemma_trim_start_before(signs, command);
    let m = trim_start(signs);
    lemma_trim_start_len(signs);
    lemma_trim_end_behind(m, command);
    assert(command.last() == name.last());
    assert(trim_end(command) == command);
    assert(command[0] == '/');
    let t = m + command;
    assert(trim_start(command) == command);
    assert(trim(text) == t);
    assert forall|j: int| 0 <= j < m.len() implies #[trigger] t[j] != '/' && mention_char(t[j]) by {
        assert(t[j] == signs[signs.len() - m.len() + j]);
    }
    assert(t[m.len() as int] == '/');
    lemma_first_pos(t, '/', m.len() as int);
    assert(t.skip(m.len() as int + 1) == name);
    assert(trim_start(name) == name);
}

/// A text that begins with neither a slash nor anything that mentions are made of
/// is plain text, and is read as it is, but for the white space around it.
pub proof fn plain_texts_are_read_as_written(text: Seq<char>)
    requires
        text.len() > 0,
        !white(text[0]),
        !white(text.last()),
        text[0] != '/' && text[0] != '@' && text[0] != '<' && text[0] != '>' && text[0] != '!' && !(
        '0' <= text[0] <= '9'),
    ensures
        qq_content(text) == ContentView::Text(text),
        qq_command(text) is None,
{
    crate::text::lemma_trim_unchanged(text);
    lemma_first_pos_bounds(text.skip(1), '/');
    assert(!mention_char(text[0]));
}

/// What the gateway is sent is taken by all that it holds.
pub proof fn frames_are_taken_by_what_they_hold(
    token: String,
    id: String,
    os: String,
    client: String,
    n: u64,
    a: u32,
    b: u32,
    c: u32,
    last: Option<u64>,
)
    ensures
        (Outgoing::Identify { token, intents: a, shard: b, shards: c, os, client })@ == (
        OutgoingView::Identify {
            token: token@,
            intents: a,
            shard: b,
            shards: c,
            os: os@,
            client: client@,
        }),
        (Outgoing::Resume { token, session_id: id, seq: n })@ == (OutgoingView::Resume {
            token: token@,
            session_id: id@,
            seq: n,
        }),
        (Outgoing::Heartbeat { last_sequence: last })@ == (OutgoingView::Heartbeat {
            last_sequence: last,
        }),
{
}

/// A greeting, and nothing else, opens a connection: a session that was kept is taken
/// up again, and without one a new session is begun.
pub proof fn greetings_open_connections(
    frame: &Frame,
    state: &SessionState,
    token: &str,
    r: Result<(u64, Outgoing), GatewayError>,
)
    requires
        call_ensures(on_hello, (frame, state, token), r),
    ensures
        r is Ok <==> frame.op_code == 10,
        frame.op_code != 10 ==> r->Err_0 == (GatewayError::NotHello { op_code: frame.op_code }),
        r is Ok && state@.session_id is None ==> r->Ok_0.1@ is Identify,
        r is Ok && state@.session_id is Some && state@.last_sequence is Some ==> r->Ok_0.1@ == (
        OutgoingView::Resume {
            token: "QQBot "@ + token@,
            session_id: state@.session_id->0,
            seq: state@.last_sequence->0,
        }),
        r is Ok && frame.data is None ==> r->Ok_0.0 == 45_000,
        r is Ok && frame.data is Some && frame.data->0.heartbeat_interval is Some ==> r->Ok_0.0
            == frame.data->0.heartbeat_interval->0,
{
}

/// A session is ready when the gateway says so: a new one is kept under its name, one
/// that was taken up again goes on under the name that was kept, and both from the
/// last event that was seen. Anything else is an error.
pub proof fn connections_get_ready(
    frame: &Frame,
    state: &mut SessionState,
    r: Result<Gateway, GatewayError>,
)
    requires
        call_ensures(on_ready, (frame, state), r),
    ensures
        ({
            let event = opt_text(frame.event_type);
            &&& r is Ok <==> (event == Some("READY"@) && frame.op_code == 0) || event == Some(
                "RESUMED"@,
            )
            &&& r is Ok ==> r->Ok_0@.last_sequence == old(state)@.last_sequence
            &&& event == Some("READY"@) && r is Ok ==> final(state)@.session_id == Some(
                r->Ok_0@.session_id,
            ) && final(state)@.last_sequence == old(state)@.last_sequence
            &&& event == Some("RESUMED"@) && old(state)@.session_id is Some ==> r->Ok_0@.session_id
                == old(state)@.session_id->0 && final(state)@ == old(state)@
            &&& event == Some("READY"@) && frame.op_code != 0 ==> r->Err_0 == (
            GatewayError::NotDispatch { op_code: frame.op_code }) && final(state)@ == old(state)@
            &&& event != Some("READY"@) && event != Some("RESUMED"@) ==> r->Err_0 is NotReady
                && r->Err_0->NotReady_op_code == frame.op_code
        }),
{
    reveal_strlit("READY");
    reveal_strlit("RESUMED");
    assert("READY"@.len() != "RESUMED"@.len());
}

/// The signs of life name the last event that was seen, and a connection that ends
/// keeps its session and that event.
pub proof fn last_events_are_kept(
    g: &mut Gateway,
    frame: &Frame,
    state: &mut SessionState,
    step: FrameStep,
    after: &Gateway,
    sign: Outgoing,
    n: u64,
)
    requires
        call_ensures(Gateway::on_frame, (g, frame, state), step),
        *after == *final(g),
        call_ensures(Gateway::heartbeat, (after,), sign),
        frame.op_code == 0,
        frame.sequence == Some(n),
    ensures
        step is Handle,
        sign@ == (OutgoingView::Heartbeat { last_sequence: Some(n) }),
        final(state)@.last_sequence == Some(n),
        final(state)@.session_id == old(state)@.session_id,
        final(g)@.session_id == old(g)@.session_id,
{
}

/// What is kept of a session is what is told of it, and it can be forgotten.
pub proof fn kept_sessions_are_told(
    s: &mut SessionState,
    id: Option<String>,
    seq: Option<u64>,
    n: u64,
    after: &SessionState,
    told: (Option<String>, Option<u64>),
    g: Gateway,
)
    requires
        *after == *final(s),
        call_ensures(SessionState::get, (after,), told),
    ensures
        call_ensures(SessionState::set, (s, id, seq), ()) ==> opt_text(told.0) == opt_text(id) && (
        seq is Some ==> told.1 == seq) && (seq is None ==> told.1 == old(s)@.last_sequence),
        call_ensures(SessionState::update_sequence, (s, n), ()) ==> told.1 == Some(n) && opt_text(
            told.0,
        ) == old(s)@.session_id,
        call_ensures(SessionState::clear, (s,), ()) ==> told.0 is None && told.1 is None,
        call_ensures(Gateway::close, (g, s), ()) ==> opt_text(told.0) == Some(g@.session_id) && (
        g@.last_sequence is Some ==> told.1 == g@.last_sequence),
{
}

/// A user's message is passed on from its chat, and is the one that the next answer
/// refers to. Any other event is passed over, and changes nothing.
pub proof fn users_messages_are_passed_on(
    frame: &Frame,
    channel: &str,
    recent: &mut RecentMessages,
    r: EventStep,
    msg: QqMessage,
)
    requires
        call_ensures(handle_event, (frame, channel, recent), r),
    ensures
        frame.data is None ==> r is MissingData && final(recent)@ == old(recent)@,
        frame.data is Some && opt_text(frame.event_type) != Some("C2C_MESSAGE_CREATE"@) && opt_text(
            frame.event_type,
        ) != Some("GROUP_AT_MESSAGE_CREATE"@) ==> r is Ignore && final(recent)@ == old(recent)@,
        frame.data is Some && frame.data->0.message == Ok::<QqMessage, String>(msg) && opt_text(
            frame.event_type,
        ) == Some("C2C_MESSAGE_CREATE"@) ==> {
            &&& r matches EventStep::Message(m)
            &&& m.channel_name@ == channel@
            &&& m.chat_id@ == "c2c:"@ + msg.user_openid@
            &&& m.content@ == qq_content(msg.content@)
            &&& final(recent)@ == old(recent)@.insert("c2c:"@ + msg.user_openid@, msg.id@)
        },
        frame.data is Some && frame.data->0.message == Ok::<QqMessage, String>(msg) && opt_text(
            frame.event_type,
        ) == Some("GROUP_AT_MESSAGE_CREATE"@) && msg.group_openid is Some ==> {
            &&& r matches EventStep::Message(m)
            &&& m.channel_name@ == channel@
            &&& m.chat_id@ == "group:"@ + msg.group_openid->0@
            &&& m.content@ == qq_content(msg.content@)
            &&& final(recent)@ == old(recent)@.insert("group:"@ + msg.group_openid->0@, msg.id@)
        },
{
    reveal_strlit("C2C_MESSAGE_CREATE");
    reveal_strlit("GROUP_AT_MESSAGE_CREATE");
    assert("C2C_MESSAGE_CREATE"@.len() != "GROUP_AT_MESSAGE_CREATE"@.len());
}

/// An answer goes to its user or group, refers to the last message of the chat, and
/// has the next number; a chat of neither kind is refused, and uses up no number.
pub proof fn answers_refer_to_the_last_message(
    chat: &ChatId,
    content: &str,
    recent: &RecentMessages,
    counter: &mut u64,
    r: Result<SendPlan, String>,
    id: Seq<char>,
)
    requires
        call_ensures(send_message, (chat, content, recent, counter), r),
    ensures
        chat@ == "c2c:"@ + id ==> r is Ok && r->Ok_0.url@ == "https://api.sgroup.qq.com/v2/users/"@
            + id + "/messages"@,
        chat@ == "group:"@ + id ==> r is Ok && r->Ok_0.url@
            == "https://api.sgroup.qq.com/v2/groups/"@ + id + "/messages"@,
        !"c2c:"@.is_prefix_of(chat@) && !"group:"@.is_prefix_of(chat@) ==> r is Err && r->Err_0@
            == "Invalid chat_id format: "@ + chat@ && *final(counter) == *old(counter),
        r is Ok && content@.len() <= 2000 ==> r->Ok_0.content@ == content@,
        r is Ok && recent@.contains_key(chat@) ==> r->Ok_0.msg_id is Some && r->Ok_0.msg_id->0@
            == recent@[chat@],
        r is Ok && !recent@.contains_key(chat@) ==> r->Ok_0.msg_id is None,
        r is Ok ==> r->Ok_0.msg_seq == *old(counter),
        r is Ok && *old(counter) < u64::MAX ==> *final(counter) == *old(counter) + 1,
{
    messages_go_to_users_and_groups(id, chat@);
    messages_keep_to_the_limits(content@);
}

/// Numbers follow one another, and a token lasts for the seconds that the platform
/// names, or not at all where it names none.
pub proof fn numbers_follow_one_another(
    counter: &mut u64,
    n: u64,
    after: &mut u64,
    next: u64,
    text: &str,
    lasts: u64,
    seconds: u64,
)
    ensures
        call_ensures(generate_msg_seq, (counter,), n) && *old(after) == *final(counter)
            && call_ensures(generate_msg_seq, (after,), next) && n < u64::MAX ==> next == n + 1,
        call_ensures(token_lifetime, (text,), lasts) && text@ == decimal(seconds as nat) ==> lasts
            == seconds,
        call_ensures(token_lifetime, (text,), lasts) && unsigned_value(text@) is None ==> lasts == 0,
{
    crate::number::decimal_reads_back(seconds as nat);
}

/// Each kind of frame is sent under its own code.
pub proof fn frames_are_sent_under_their_codes(
    out: &Outgoing,
    code: u8,
    step: &EventStep,
    said: Option<String>,
)
    ensures
        call_ensures(Outgoing::op_code, (out,), code) ==> {
            &&& *out is Identify ==> code == 2
            &&& *out is Resume ==> code == 6
            &&& *out is Heartbeat ==> code == 1
        },
        call_ensures(EventStep::error_message, (step,), said) ==> {
            &&& *step is Ignore || *step is Message ==> said is None
            &&& *step is MissingData ==> said is Some && said->0@ == "Missing event data"@
            &&& *step matches EventStep::Unreadable(why) ==> said is Some && said->0@ == why@
        },
{
}

/// A channel's bot is entered where the platform said which it is, and only then.
pub proof fn bots_are_entered_by_their_number(
    registry: &mut BotRegistry,
    id: &Option<String>,
    channel: &str,
    r: bool,
)
    requires
        call_ensures(BotRegistry::register, (registry, id, channel), r),
    ensures
        r <==> *id is Some,
        *id is Some ==> final(registry)@ == old(registry)@.insert((*id)->0@, channel@),
        *id is None ==> final(registry)@ == old(registry)@,
{
}

/// What a user typed is read as it is, unless it is a command or begins with
/// mentions.
pub proof fn typed_texts_are_read(content: &str, r: IncomingContent)
    requires
        call_ensures(parse_message_content, (content,), r),
    ensures
        r@ == qq_content(content@),
        content@.len() > 0 && !white(content@[0]) && !white(content@.last()) && content@[0] != '/'
            && content@[0] != '@' && content@[0] != '<' && content@[0] != '>' && content@[0] != '!'
            && !('0' <= content@[0] <= '9') ==> r@ == ContentView::Text(content@),
        is_lowered(r@, qq_command(content@)),
{
    if content@.len() > 0 && !white(content@[0]) && !white(content@.last()) && content@[0] != '/'
        && content@[0] != '@' && content@[0] != '<' && content@[0] != '>' && content@[0] != '!' && !(
    '0' <= content@[0] <= '9') {
        plain_texts_are_read_as_written(content@);
    }
}

/// A token is presented behind the platform's word for it, and an error says the code
/// that came.
pub proof fn tokens_and_errors_are_worded(
    token: &str,
    e: &GatewayError,
    code: u8,
    word: String,
)
    ensures
        call_ensures(authorization_header, (token,), word) ==> word@ == "QQBot "@ + token@,
        call_ensures(GatewayError::message, (e,), word) && *e == (GatewayError::NotHello {
            op_code: code,
        }) ==> word@ == "Expected Hello, got op="@ + decimal(code as nat),
        call_ensures(GatewayError::message, (e,), word) && *e == (GatewayError::NotDispatch {
            op_code: code,
        }) ==> word@ == "Expected Ready dispatch, got op="@ + decimal(code as nat),
        call_ensures(GatewayError::message, (e,), word) && *e == (GatewayError::NotReady {
            op_code: code,
            event_type: None,
        }) ==> word@ == "Expected Ready/Resumed, got op="@ + decimal(code as nat) + " t="@ + "None"@,
{
}

/// Texts that have stood incomplete for more than half a minute are taken out, and no
/// others.
pub proof fn incomplete_texts_wait_half_a_minute(
    buffers: &mut StreamBuffers,
    now: u64,
    r: Vec<Flushed>,
    chat: Seq<char>,
)
    requires
        call_ensures(check_and_flush_timeouts, (buffers, now), r),
        old(buffers)@.contains_key(chat),
    ensures
        final(buffers)@.contains_key(chat) <==> old(buffers)@[chat].touched + 30_000_000_000 >= now,
        final(buffers)@.contains_key(chat) ==> final(buffers)@[chat] == old(buffers)@[chat],
{
    super::buffers::texts_stand_still_after_their_last_piece(
        old(buffers)@,
        chat,
        now,
        STREAM_TIMEOUT,
    );
}

}
