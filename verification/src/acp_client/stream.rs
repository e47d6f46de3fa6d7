//! What an agent reports while it works, and what the user sees of it.

use super::options::{map_config_options, shown_options, AgentOption};
use super::state::{AcpClientState, StateView};
use crate::channel::{OutgoingContent, OutgoingMessage, ReplyView};
use crate::clock::{longer_than, passed, SECOND};
use crate::split::{cat, cat3, joined, opt_text, texts};
use vstd::prelude::*;
use vstd::string::*;

verus! {

/// A resource that an agent embeds in its answer.
#[derive(Debug, Clone)]
pub enum EmbeddedResource {
    Text { uri: String },
    Blob,
    /// A form that this client does not know.
    Unknown,
}

/// A piece of an agent's answer.
#[derive(Debug, Clone)]
pub enum ContentBlock {
    Text(String),
    Image,
    Audio,
    ResourceLink { uri: String },
    Resource(EmbeddedResource),
    /// A form that this client does not know.
    Unknown,
}

/// How a piece of an answer reads; nothing where its form is not known.
pub open spec fn content_text(content: ContentBlock) -> Option<Seq<char>> {
    match content {
        ContentBlock::Text(text) => Some(text@),
        ContentBlock::Image => Some("<image>"@),
        ContentBlock::Audio => Some("<audio>"@),
        ContentBlock::ResourceLink { uri } => Some("[Resource: "@ + uri@ + "]"@),
        ContentBlock::Resource(resource) => match resource {
            EmbeddedResource::Text { uri } => Some("[Resource: "@ + uri@ + "]"@),
            EmbeddedResource::Blob => Some("[Resource: binary data]"@),
            EmbeddedResource::Unknown => Some("[Resource]"@),
        },
        ContentBlock::Unknown => None,
    }
}

/// How a piece of an answer reads.
pub fn extract_content_text(content: &ContentBlock) -> (r: Option<String>)
    ensures
        opt_text(r) == content_text(*content),
{
    match content {
        ContentBlock::Text(text) => Some(text.clone()),
        ContentBlock::Image => Some("<image>".to_string()),
        ContentBlock::Audio => Some("<audio>".to_string()),
        ContentBlock::ResourceLink { uri } => Some(cat3("[Resource: ", uri.as_str(), "]")),
        ContentBlock::Resource(resource) => match resource {
            EmbeddedResource::Text { uri } => Some(cat3("[Resource: ", uri.as_str(), "]")),
            EmbeddedResource::Blob => Some("[Resource: binary data]".to_string()),
            EmbeddedResource::Unknown => Some("[Resource]".to_string()),
        },
        ContentBlock::Unknown => None,
    }
}

/// How far a tool has come.
#[derive(Debug, Clone, Copy)]
pub enum ToolCallStatus {
    InProgress,
    Completed,
    Failed,
    /// Any other stage.
    Other,
}

/// What an agent reports while it works.
#[derive(Debug, Clone)]
pub enum SessionUpdate {
    AgentMessageChunk(ContentBlock),
    AgentThoughtChunk(ContentBlock),
    ToolCallUpdate { status: Option<ToolCallStatus>, raw_output: Option<String> },
    Plan,
    UsageUpdate,
    CurrentModeUpdate(String),
    AvailableCommandsUpdate,
    SessionInfoUpdate,
    ConfigOptionUpdate(Vec<AgentOption>),
    /// Any other report.
    Other,
}

/// How long a stream may be silent before it is taken to have ended.
pub const STREAM_TIMEOUT: u64 = 60 * SECOND;

/// Some messages to the user, as text.
pub open spec fn replies(v: Seq<OutgoingMessage>) -> Seq<ReplyView> {
    v.map_values(|m: OutgoingMessage| m@)
}

/// The running answer of an agent.
#[derive(Debug)]
pub struct AcpClient {
    /// Whether a part of an answer is out whose end has not been announced.
    streaming: bool,
    /// When the last part came.
    last_chunk_time: u64,
}

/// The running answer of an agent, as plain values.
pub struct StreamView {
    pub streaming: bool,
    pub last_chunk_time: u64,
}

impl View for AcpClient {
    type V = StreamView;

    closed spec fn view(&self) -> StreamView {
        StreamView { streaming: self.streaming, last_chunk_time: self.last_chunk_time }
    }
}

/// What ends a stream: its end, where one is running.
pub open spec fn closing(s: StreamView) -> Seq<ReplyView> {
    if s.streaming {
        seq![ReplyView::StreamEnd]
    } else {
        Seq::empty()
    }
}

/// The stream after its end.
pub open spec fn closed_stream(s: StreamView) -> StreamView {
    StreamView { streaming: false, ..s }
}

/// What a report does to the running stream.
pub open spec fn stream_after(s: StreamView, update: SessionUpdate, thinking: bool, now: u64) -> StreamView {
    match update {
        SessionUpdate::AgentMessageChunk(content) => if content_text(content) is Some {
            StreamView { streaming: true, last_chunk_time: now }
        } else {
            s
        },
        SessionUpdate::AgentThoughtChunk(content) => if thinking && content_text(content) is Some {
            StreamView { streaming: true, last_chunk_time: now }
        } else {
            s
        },
        SessionUpdate::ToolCallUpdate { status, raw_output } => closed_stream(s),
        SessionUpdate::Plan => closed_stream(s),
        SessionUpdate::Other => closed_stream(s),
        _ => s,
    }
}

/// What the user sees of a report.
pub open spec fn seen_of(s: StreamView, update: SessionUpdate, thinking: bool) -> Seq<ReplyView> {
    match update {
        SessionUpdate::AgentMessageChunk(content) => match content_text(content) {
            Some(text) => seq![ReplyView::StreamChunk(text)],
            None => Seq::empty(),
        },
        SessionUpdate::AgentThoughtChunk(content) => match content_text(content) {
            Some(text) => if thinking {
                seq![ReplyView::StreamChunk(text)]
            } else {
                Seq::empty()
            },
            None => Seq::empty(),
        },
        SessionUpdate::ToolCallUpdate { status, raw_output } => match (status, opt_text(raw_output)) {
            (Some(ToolCallStatus::Failed), Some(output)) => closing(s).push(
                ReplyView::Error("Tool failed: "@ + output),
            ),
            _ => closing(s),
        },
        SessionUpdate::Plan => closing(s),
        SessionUpdate::Other => closing(s),
        _ => Seq::empty(),
    }
}

/// What a report changes of what the client knows.
pub open spec fn state_after(s: StateView, update: SessionUpdate) -> StateView {
    match update {
        SessionUpdate::CurrentModeUpdate(mode) => StateView { active_mode: Some(mode@), ..s },
        SessionUpdate::ConfigOptionUpdate(options) => StateView {
            available_config_options: shown_options(options@),
            ..s
        },
        _ => s,
    }
}

/// The notice that a tool was approved.
pub open spec fn approval_notice(title: Option<Seq<char>>) -> Seq<char> {
    "[Auto-approved tool: "@ + (match title {
        Some(t) => t,
        None => "unknown"@,
    }) + "]"@
}

/// The option that is chosen when an agent asks for permission: the first one
/// it offers.
pub open spec fn granted_option(options: Seq<Seq<char>>) -> Seq<char> {
    if options.len() > 0 {
        options[0]
    } else {
        "allow"@
    }
}

impl AcpClient {
    /// A client whose agent has not said anything.
    pub fn new(now: u64) -> (r: Self)
        ensures
            r@ == (StreamView { streaming: false, last_chunk_time: now }),
    {
        AcpClient { streaming: false, last_chunk_time: now }
    }

    /// Announces the end of the stream, if one is running.
    pub fn end_streaming_if_active(&mut self) -> (r: Vec<OutgoingMessage>)
        ensures
            replies(r@) == closing(old(self)@),
            final(self)@ == closed_stream(old(self)@),
    {
        let mut r: Vec<OutgoingMessage> = Vec::new();
        if self.streaming {
            r.push(OutgoingMessage { content: OutgoingContent::StreamEnd });
        }
        self.streaming = false;
        assert(replies(r@) =~= closing(old(self)@));
        r
    }

    /// Ends a stream whose agent has fallen silent.
    pub fn check_stream_timeout(&mut self, now: u64) -> (r: Vec<OutgoingMessage>)
        ensures
            longer_than(old(self)@.last_chunk_time, now, STREAM_TIMEOUT) ==> replies(r@) == closing(
                old(self)@,
            ) && final(self)@ == closed_stream(old(self)@),
            !longer_than(old(self)@.last_chunk_time, now, STREAM_TIMEOUT) ==> r@.len() == 0
                && final(self)@ == old(self)@,
    {
        if passed(self.last_chunk_time, now, STREAM_TIMEOUT) {
            self.end_streaming_if_active()
        } else {
            Vec::new()
        }
    }

    /// Passes on a part of the answer.
    fn send_stream_chunk(&mut self, content: &ContentBlock, now: u64) -> (r: Vec<OutgoingMessage>)
        ensures
            match content_text(*content) {
                Some(text) => replies(r@) == seq![ReplyView::StreamChunk(text)] && final(self)@ == (
                StreamView { streaming: true, last_chunk_time: now }),
                None => replies(r@) == Seq::<ReplyView>::empty() && final(self)@ == old(self)@,
            },
    {
        let mut r: Vec<OutgoingMessage> = Vec::new();
        match extract_content_text(content) {
            Some(text) => {
                self.streaming = true;
                self.last_chunk_time = now;
                r.push(OutgoingMessage { content: OutgoingContent::StreamChunk(text) });
                assert(replies(r@) =~= seq![ReplyView::StreamChunk(text@)]);
            },
            None => {
                assert(replies(r@) =~= Seq::<ReplyView>::empty());
            },
        }
        r
    }

    /// Takes a report of the agent: changes what the client knows, and returns
    /// what the user is to see.
    pub fn session_notification(
        &mut self,
        state: &mut AcpClientState,
        update: &SessionUpdate,
        now: u64,
    ) -> (r: Vec<OutgoingMessage>)
        ensures
            replies(r@) == seen_of(old(self)@, *update, old(state)@.show_thinking),
            final(self)@ == stream_after(old(self)@, *update, old(state)@.show_thinking, now),
            final(state)@ == state_after(old(state)@, *update),
    {
        let none: Vec<OutgoingMessage> = Vec::new();
        assert(replies(none@) =~= Seq::<ReplyView>::empty());
        match update {
            SessionUpdate::AgentMessageChunk(content) => self.send_stream_chunk(content, now),
            SessionUpdate::AgentThoughtChunk(content) => {
                if state.show_thinking() {
                    self.send_stream_chunk(content, now)
                } else {
                    none
                }
            },
            SessionUpdate::ToolCallUpdate { status, raw_output } => {
                let mut r = self.end_streaming_if_active();
                match (status, raw_output) {
                    (Some(ToolCallStatus::Failed), Some(output)) => {
                        let ghost before = r@;
                        let word = state.send_error(cat("Tool failed: ", output.as_str()));
                        r.push(word);
                        assert(replies(r@) =~= replies(before).push(word@));
                        r
                    },
                    _ => r,
                }
            },
            SessionUpdate::Plan => self.end_streaming_if_active(),
            SessionUpdate::UsageUpdate => none,
            SessionUpdate::CurrentModeUpdate(mode) => {
                state.set_active_mode(Some(mode.clone()));
                none
            },
            SessionUpdate::AvailableCommandsUpdate => none,
            SessionUpdate::SessionInfoUpdate => none,
            SessionUpdate::ConfigOptionUpdate(options) => {
                state.set_available_config_options(map_config_options(options));
                none
            },
            SessionUpdate::Other => self.end_streaming_if_active(),
        }
    }

    /// Grants an agent's request for permission: the option that is chosen, and
    /// what the user is told.
    pub fn request_permission(
        state: &AcpClientState,
        title: &Option<String>,
        options: &Vec<String>,
    ) -> (r: (String, Option<OutgoingMessage>))
        ensures
            r.0@ == granted_option(texts(options@)),
            match r.1 {
                Some(m) => state@.show_auto_approved && m@ == ReplyView::Text(
                    approval_notice(opt_text(*title)),
                ),
                None => !state@.show_auto_approved,
            },
    {
        let notice = if state.show_auto_approved() {
            let name = match title {
                Some(t) => t.clone(),
                None => "unknown".to_string(),
            };
            Some(state.send_to_user(cat3("[Auto-approved tool: ", name.as_str(), "]")))
        } else {
            None
        };
        let chosen = if options.len() > 0 {
            options[0].clone()
        } else {
            "allow".to_string()
        };
        (chosen, notice)
    }
}

// ---------------------------------------------------------------------------
// Laws
// ---------------------------------------------------------------------------

/// Whether a stream is open after some messages.
pub open spec fn open_after(open: bool, sent: Seq<ReplyView>) -> bool
    decreases sent.len(),
{
    if sent.len() == 0 {
        open
    } else {
        match sent.last() {
            ReplyView::StreamChunk(_) => true,
            ReplyView::StreamEnd => false,
            _ => open_after(open, sent.drop_last()),
        }
    }
}

/// Whether each end of a stream among some messages ends one that is open.
pub open spec fn ends_are_due(open: bool, sent: Seq<ReplyView>) -> bool
    decreases sent.len(),
{
    sent.len() == 0 || (ends_are_due(open, sent.drop_last()) && (sent.last() is StreamEnd
        ==> open_after(open, sent.drop_last())))
}

/// The stream and the messages after some reports, each at its moment.
pub open spec fn after_reports(
    s: StreamView,
    reports: Seq<(SessionUpdate, u64)>,
    thinking: bool,
) -> (StreamView, Seq<ReplyView>)
    decreases reports.len(),
{
    if reports.len() == 0 {
        (s, Seq::empty())
    } else {
        let (t, sent) = after_reports(s, reports.drop_last(), thinking);
        let (update, now) = reports.last();
        (stream_after(t, update, thinking, now), sent + seen_of(t, update, thinking))
    }
}

proof fn lemma_open_push(open: bool, sent: Seq<ReplyView>, m: ReplyView)
    ensures
        open_after(open, sent.push(m)) == match m {
            ReplyView::StreamChunk(_) => true,
            ReplyView::StreamEnd => false,
            _ => open_after(open, sent),
        },
        ends_are_due(open, sent.push(m)) == (ends_are_due(open, sent) && (m is StreamEnd
            ==> open_after(open, sent))),
{
    assert(sent.push(m).drop_last() == sent);
}

/// The user sees the end of a stream only where one is running, and the client
/// knows at all times whether one is: in whatever order an agent reports, each
/// end that is announced ends a stream that had begun.
pub proof fn stream_ends_match(s: StreamView, reports: Seq<(SessionUpdate, u64)>, thinking: bool)
    ensures
        ({
            let (t, sent) = after_reports(s, reports, thinking);
            &&& ends_are_due(s.streaming, sent)
            &&& open_after(s.streaming, sent) == t.streaming
        }),
    decreases reports.len(),
{
    if reports.len() > 0 {
        stream_ends_match(s, reports.drop_last(), thinking);
        let (t, sent) = after_reports(s, reports.drop_last(), thinking);
        let (update, now) = reports.last();
        let seen = seen_of(t, update, thinking);
        if seen.len() == 0 {
            assert(sent + seen == sent);
        } else {
            lemma_open_push(s.streaming, sent, seen[0]);
            if seen.len() == 1 {
                assert(sent + seen == sent.push(seen[0]));
            } else {
                lemma_open_push(s.streaming, sent.push(seen[0]), seen[1]);
                assert(sent + seen == sent.push(seen[0]).push(seen[1]));
            }
        }
    }
}

/// Ending a stream twice announces its end once.
pub proof fn streams_end_once(s: StreamView)
    ensures
        closing(closed_stream(s)) == Seq::<ReplyView>::empty(),
        closed_stream(closed_stream(s)) == closed_stream(s),
{
}

/// What an agent thinks is not shown where it is not to be shown, and does not
/// touch the running answer.
pub proof fn thoughts_can_be_hidden(s: StreamView, content: ContentBlock, now: u64)
    ensures
        seen_of(s, SessionUpdate::AgentThoughtChunk(content), false) == Seq::<ReplyView>::empty(),
        stream_after(s, SessionUpdate::AgentThoughtChunk(content), false, now) == s,
{
}

/// What an agent writes reaches the user character for character: each text that
/// it reports is sent as one piece of the stream, blanks and line breaks at its
/// edges included, and the stream is running from then on.
pub proof fn texts_are_passed_on_as_written(s: StreamView, text: String, thinking: bool, now: u64)
    ensures
        seen_of(s, SessionUpdate::AgentMessageChunk(ContentBlock::Text(text)), thinking) == seq![
            ReplyView::StreamChunk(text@),
        ],
        stream_after(s, SessionUpdate::AgentMessageChunk(ContentBlock::Text(text)), thinking, now)
            == (StreamView { streaming: true, last_chunk_time: now }),
{
}

/// The text of a piece of a stream.
pub open spec fn piece_of(m: ReplyView) -> Seq<char> {
    match m {
        ReplyView::StreamChunk(text) => text,
        _ => Seq::empty(),
    }
}

/// However many texts an agent's answer comes in, the user reads all of them in
/// their order and nothing else: the pieces of the stream, put together, are the
/// texts that the agent reported, put together.
pub proof fn answers_arrive_whole(
    s: StreamView,
    answer: Seq<String>,
    moments: Seq<u64>,
    thinking: bool,
)
    ensures
        ({
            let reports = Seq::new(
                answer.len(),
                |i: int|
                    (SessionUpdate::AgentMessageChunk(ContentBlock::Text(answer[i])), moments[i]),
            );
            let sent = after_reports(s, reports, thinking).1;
            &&& sent == Seq::new(answer.len(), |i: int| ReplyView::StreamChunk(answer[i]@))
            &&& joined(sent.map_values(|m: ReplyView| piece_of(m)), Seq::empty()) == joined(
                Seq::new(answer.len(), |i: int| answer[i]@),
                Seq::empty(),
            )
        }),
    decreases answer.len(),
{
    let reports = Seq::new(
        answer.len(),
        |i: int| (SessionUpdate::AgentMessageChunk(ContentBlock::Text(answer[i])), moments[i]),
    );
    let sent = after_reports(s, reports, thinking).1;
    let all = Seq::new(answer.len(), |i: int| ReplyView::StreamChunk(answer[i]@));
    if answer.len() > 0 {
        let front = answer.drop_last();
        let front_reports = Seq::new(
            front.len(),
            |i: int| (SessionUpdate::AgentMessageChunk(ContentBlock::Text(front[i])), moments[i]),
        );
        answers_arrive_whole(s, front, moments, thinking);
        assert(reports.drop_last() =~= front_reports);
        let front_all = Seq::new(front.len(), |i: int| ReplyView::StreamChunk(front[i]@));
        assert(front_all.push(ReplyView::StreamChunk(answer.last()@)) =~= all);
        let last = after_reports(s, front_reports, thinking).0;
        texts_are_passed_on_as_written(last, answer.last(), thinking, moments[answer.len() - 1]);
        assert(sent =~= front_all + seq![ReplyView::StreamChunk(answer.last()@)]);
    }
    assert(sent =~= all);
    assert(sent.map_values(|m: ReplyView| piece_of(m)) =~= Seq::new(
        answer.len(),
        |i: int| answer[i]@,
    ));
}

/// What an agent thinks is passed on like its answer where it is to be shown.
pub proof fn thoughts_are_shown_like_answers(s: StreamView, content: ContentBlock, now: u64)
    ensures
        seen_of(s, SessionUpdate::AgentThoughtChunk(content), true) == seen_of(
            s,
            SessionUpdate::AgentMessageChunk(content),
            true,
        ),
        stream_after(s, SessionUpdate::AgentThoughtChunk(content), true, now) == stream_after(
            s,
            SessionUpdate::AgentMessageChunk(content),
            true,
            now,
        ),
        seen_of(s, SessionUpdate::AgentMessageChunk(content), true) == seen_of(
            s,
            SessionUpdate::AgentMessageChunk(content),
            false,
        ),
{
}

/// Of what is no text the user reads what it is, with its address where it has
/// one; of a form that is not known nothing is sent, and the stream is left alone.
pub proof fn other_contents_are_named(s: StreamView, uri: String, thinking: bool, now: u64)
    ensures
        content_text(ContentBlock::Image) == Some("<image>"@),
        content_text(ContentBlock::Audio) == Some("<audio>"@),
        content_text(ContentBlock::ResourceLink { uri }) == Some("[Resource: "@ + uri@ + "]"@),
        content_text(ContentBlock::Resource(EmbeddedResource::Text { uri })) == Some(
            "[Resource: "@ + uri@ + "]"@,
        ),
        content_text(ContentBlock::Resource(EmbeddedResource::Blob)) == Some(
            "[Resource: binary data]"@,
        ),
        content_text(ContentBlock::Resource(EmbeddedResource::Unknown)) == Some("[Resource]"@),
        seen_of(s, SessionUpdate::AgentMessageChunk(ContentBlock::Unknown), thinking) == Seq::<
            ReplyView,
        >::empty(),
        stream_after(s, SessionUpdate::AgentMessageChunk(ContentBlock::Unknown), thinking, now) == s,
{
}

/// Whatever can be read is sent as one piece of the stream, with just what it
/// reads.
pub proof fn contents_are_sent_as_they_read(
    s: StreamView,
    content: ContentBlock,
    thinking: bool,
    now: u64,
)
    ensures
        content_text(content) matches Some(text) ==> {
            &&& seen_of(s, SessionUpdate::AgentMessageChunk(content), thinking) == seq![
                ReplyView::StreamChunk(text),
            ]
            &&& stream_after(s, SessionUpdate::AgentMessageChunk(content), thinking, now) == (
            StreamView { streaming: true, last_chunk_time: now })
        },
{
}

/// News of tools and of plans, and reports that are not known, end a running
/// answer. A tool that failed is reported, with what it wrote.
pub proof fn tools_and_plans_end_the_answer(
    s: StreamView,
    status: Option<ToolCallStatus>,
    raw_output: Option<String>,
    thinking: bool,
    now: u64,
)
    ensures
        ({
            let end = if s.streaming {
                seq![ReplyView::StreamEnd]
            } else {
                Seq::<ReplyView>::empty()
            };
            let ended = StreamView { streaming: false, last_chunk_time: s.last_chunk_time };
            let tool = SessionUpdate::ToolCallUpdate { status, raw_output };
            &&& seen_of(s, SessionUpdate::Plan, thinking) == end
            &&& seen_of(s, SessionUpdate::Other, thinking) == end
            &&& stream_after(s, SessionUpdate::Plan, thinking, now) == ended
            &&& stream_after(s, SessionUpdate::Other, thinking, now) == ended
            &&& stream_after(s, tool, thinking, now) == ended
            &&& status == Some(ToolCallStatus::Failed) && raw_output is Some ==> seen_of(
                s,
                tool,
                thinking,
            ) == end.push(ReplyView::Error("Tool failed: "@ + raw_output->0@))
            &&& status != Some(ToolCallStatus::Failed) || raw_output is None ==> seen_of(
                s,
                tool,
                thinking,
            ) == end
        }),
{
}

/// News of usage, commands, modes, options and the session itself are not shown,
/// and leave a running answer alone.
pub proof fn notices_leave_the_answer_alone(
    s: StreamView,
    mode: String,
    options: Vec<AgentOption>,
    thinking: bool,
    now: u64,
)
    ensures
        forall|update: SessionUpdate|
            #![trigger seen_of(s, update, thinking)]
            #![trigger stream_after(s, update, thinking, now)]
            update is UsageUpdate || update is AvailableCommandsUpdate || update is SessionInfoUpdate
                || update == SessionUpdate::CurrentModeUpdate(mode) || update
                == SessionUpdate::ConfigOptionUpdate(options) ==> seen_of(s, update, thinking)
                == Seq::<ReplyView>::empty() && stream_after(s, update, thinking, now) == s,
{
}

/// A mode that the agent reports is the session's mode from then on, and options
/// that it reports are the session's options; no other report changes what is
/// known, and these change nothing else.
pub proof fn reported_modes_and_options_are_taken_over(
    s: StateView,
    mode: String,
    options: Vec<AgentOption>,
    update: SessionUpdate,
)
    ensures
        state_after(s, SessionUpdate::CurrentModeUpdate(mode)) == (StateView {
            active_mode: Some(mode@),
            ..s
        }),
        state_after(s, SessionUpdate::ConfigOptionUpdate(options)) == (StateView {
            available_config_options: options@.map_values(
                |o: AgentOption| super::options::shown_option(o),
            ),
            ..s
        }),
        !(update is CurrentModeUpdate) && !(update is ConfigOptionUpdate) ==> state_after(s, update)
            == s,
{
}

/// An agent that asks for permission is given the first option that it offers, or
/// is allowed what it asks where it offers none; the user reads which tool it was.
pub proof fn permissions_are_given_by_the_first_option(options: Seq<Seq<char>>, title: Seq<char>)
    ensures
        options.len() > 0 ==> granted_option(options) == options[0],
        options.len() == 0 ==> granted_option(options) == "allow"@,
        approval_notice(Some(title)) == "[Auto-approved tool: "@ + title + "]"@,
        approval_notice(None) == "[Auto-approved tool: "@ + "unknown"@ + "]"@,
{
}

/// A stream is taken to have ended after a minute of silence. Ending one that runs
/// announces its end, and ending one that does not announces nothing.
pub proof fn silent_streams_end_after_a_minute(s: StreamView)
    ensures
        STREAM_TIMEOUT == 60 * 1_000_000_000,
        s.streaming ==> closing(s) == seq![ReplyView::StreamEnd],
        !s.streaming ==> closing(s) == Seq::<ReplyView>::empty(),
        closed_stream(s) == (StreamView { streaming: false, last_chunk_time: s.last_chunk_time }),
{
}

/// Several messages are taken each by its words, in their order.
pub proof fn replies_are_taken_in_order(v: Seq<OutgoingMessage>, i: int)
    requires
        0 <= i < v.len(),
    ensures
        replies(v).len() == v.len(),
        replies(v)[i] == v[i]@,
{
}

/// A piece of an answer is passed on at once and as it was written, in one message
/// and as a piece, whatever came before.
pub proof fn pieces_are_passed_on_at_once(
    client: &mut AcpClient,
    state: &mut AcpClientState,
    update: &SessionUpdate,
    now: u64,
    r: Vec<OutgoingMessage>,
    text: String,
)
    requires
        call_ensures(AcpClient::session_notification, (client, state, update, now), r),
        *update == SessionUpdate::AgentMessageChunk(ContentBlock::Text(text)),
    ensures
        r@.len() == 1,
        r@[0]@ == ReplyView::StreamChunk(text@),
        final(client)@ == (StreamView { streaming: true, last_chunk_time: now }),
        final(state)@ == old(state)@,
{
    replies_are_taken_in_order(r@, 0);
}

/// Thoughts are shown in the same way where they are to be shown, and not at all
/// otherwise.
pub proof fn thoughts_are_shown_where_wanted(
    client: &mut AcpClient,
    state: &mut AcpClientState,
    update: &SessionUpdate,
    now: u64,
    r: Vec<OutgoingMessage>,
    text: String,
)
    requires
        call_ensures(AcpClient::session_notification, (client, state, update, now), r),
        *update == SessionUpdate::AgentThoughtChunk(ContentBlock::Text(text)),
    ensures
        old(state)@.show_thinking ==> r@.len() == 1 && r@[0]@ == ReplyView::StreamChunk(text@),
        !old(state)@.show_thinking ==> r@.len() == 0 && final(client)@ == old(client)@,
        final(state)@ == old(state)@,
{
    assert(replies(r@).len() == r@.len());
    if old(state)@.show_thinking {
        replies_are_taken_in_order(r@, 0);
    }
}

/// An answer that is open is ended once, by one word and no other; after that
/// there is nothing to end.
pub proof fn answers_are_ended_once(
    client: &mut AcpClient,
    r: Vec<OutgoingMessage>,
    after: &mut AcpClient,
    again: Vec<OutgoingMessage>,
)
    requires
        call_ensures(AcpClient::end_streaming_if_active, (client,), r),
        *old(after) == *final(client),
        call_ensures(AcpClient::end_streaming_if_active, (after,), again),
    ensures
        old(client)@.streaming ==> r@.len() == 1 && r@[0]@ == ReplyView::StreamEnd,
        !old(client)@.streaming ==> r@.len() == 0,
        !final(client)@.streaming,
        again@.len() == 0,
{
    assert(replies(r@).len() == r@.len());
    assert(replies(again@).len() == again@.len());
    if old(client)@.streaming {
        replies_are_taken_in_order(r@, 0);
    }
}

/// An answer that has stood still for more than a minute is ended; until then
/// nothing happens to it.
pub proof fn answers_may_stand_still_for_a_minute(
    client: &mut AcpClient,
    now: u64,
    r: Vec<OutgoingMessage>,
)
    requires
        call_ensures(AcpClient::check_stream_timeout, (client, now), r),
    ensures
        old(client)@.streaming && old(client)@.last_chunk_time + 60_000_000_000 < now ==> r@.len()
            == 1 && r@[0]@ == ReplyView::StreamEnd && !final(client)@.streaming,
        old(client)@.last_chunk_time + 60_000_000_000 >= now ==> r@.len() == 0 && final(client)@
            == old(client)@,
{
    assert(replies(r@).len() == r@.len());
    if old(client)@.streaming && old(client)@.last_chunk_time + 60_000_000_000 < now {
        replies_are_taken_in_order(r@, 0);
    }
}

/// A tool is allowed by the first of the options that the agent offers, and the
/// user is told of it just where that is wanted.
pub proof fn tools_are_allowed_by_the_first_option(
    state: &AcpClientState,
    title: &Option<String>,
    options: &Vec<String>,
    r: (String, Option<OutgoingMessage>),
)
    requires
        call_ensures(AcpClient::request_permission, (state, title, options), r),
    ensures
        options@.len() > 0 ==> r.0@ == options@[0]@,
        options@.len() == 0 ==> r.0@ == "allow"@,
        r.1 is Some <==> state@.show_auto_approved,
        r.1 is Some && *title is Some ==> r.1->0@ == ReplyView::Text(
            "[Auto-approved tool: "@ + (*title)->0@ + "]"@,
        ),
{
}

/// The text of a content is what was written, and an image or a sound is named.
pub proof fn contents_are_read_as_written(content: &ContentBlock, text: String, r: Option<String>)
    requires
        call_ensures(extract_content_text, (content,), r),
    ensures
        *content == ContentBlock::Text(text) ==> r is Some && r->0@ == text@,
        *content == ContentBlock::Image ==> r is Some && r->0@ == "<image>"@,
        *content == ContentBlock::Audio ==> r is Some && r->0@ == "<audio>"@,
        *content == ContentBlock::Unknown ==> r is None,
{
}

}
