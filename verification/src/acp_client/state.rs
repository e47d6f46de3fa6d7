//! What the client knows of its session.

use super::options::{
    copy_options, map_config_options, option_views, shown_options, AgentOption, OptionView,
    SessionConfigOptionState,
};
use crate::channel::{OutgoingMessage, ReplyView};
use crate::split::{copy_all, copy_opt, opt_text, texts};
use vstd::prelude::*;
use vstd::string::*;

verus! {

/// A server that an agent is told of.
#[derive(Debug, Clone)]
pub struct McpServer {
    pub name: String,
    pub url: String,
}

impl View for McpServer {
    type V = (Seq<char>, Seq<char>);

    open spec fn view(&self) -> (Seq<char>, Seq<char>) {
        (self.name@, self.url@)
    }
}

/// Some servers, each by its name and its address.
pub open spec fn server_views(v: Seq<McpServer>) -> Seq<(Seq<char>, Seq<char>)> {
    v.map_values(|s: McpServer| s@)
}

/// The servers that an agent is told of; none is the same as an empty list.
pub open spec fn opt_server_views(o: Option<Vec<McpServer>>) -> Seq<(Seq<char>, Seq<char>)> {
    match o {
        Some(v) => server_views(v@),
        None => Seq::empty(),
    }
}

/// What the client knows of its session.
#[derive(Debug)]
pub struct AcpClientState {
    mcp_servers: Option<Vec<McpServer>>,
    session_id: Option<String>,
    working_dir: String,
    available_models: Vec<String>,
    active_model: Option<String>,
    available_modes: Vec<String>,
    active_mode: Option<String>,
    available_config_options: Vec<SessionConfigOptionState>,
    show_thinking: bool,
    show_auto_approved: bool,
}

/// What the client knows of its session, as text.
#[verifier::ext_equal]
pub struct StateView {
    pub mcp_servers: Seq<(Seq<char>, Seq<char>)>,
    pub session_id: Option<Seq<char>>,
    pub working_dir: Seq<char>,
    pub available_models: Seq<Seq<char>>,
    pub active_model: Option<Seq<char>>,
    pub available_modes: Seq<Seq<char>>,
    pub active_mode: Option<Seq<char>>,
    pub available_config_options: Seq<OptionView>,
    pub show_thinking: bool,
    pub show_auto_approved: bool,
}

impl View for AcpClientState {
    type V = StateView;

    closed spec fn view(&self) -> StateView {
        StateView {
            mcp_servers: opt_server_views(self.mcp_servers),
            session_id: opt_text(self.session_id),
            working_dir: self.working_dir@,
            available_models: texts(self.available_models@),
            active_model: opt_text(self.active_model),
            available_modes: texts(self.available_modes@),
            active_mode: opt_text(self.active_mode),
            available_config_options: option_views(self.available_config_options@),
            show_thinking: self.show_thinking,
            show_auto_approved: self.show_auto_approved,
        }
    }
}

impl AcpClientState {
    /// A client that has no session yet.
    pub fn new(
        working_dir: String,
        show_thinking: bool,
        show_auto_approved: bool,
        mcp_servers: Option<Vec<McpServer>>,
    ) -> (r: Self)
        ensures
            r@ == (StateView {
                mcp_servers: opt_server_views(mcp_servers),
                session_id: None,
                working_dir: working_dir@,
                available_models: Seq::empty(),
                active_model: None,
                available_modes: Seq::empty(),
                active_mode: None,
                available_config_options: Seq::empty(),
                show_thinking,
                show_auto_approved,
            }),
    {
        let r = AcpClientState {
            mcp_servers,
            session_id: None,
            working_dir,
            available_models: Vec::new(),
            active_model: None,
            available_modes: Vec::new(),
            active_mode: None,
            available_config_options: Vec::new(),
            show_thinking,
            show_auto_approved,
        };
        assert(texts(r.available_models@) =~= Seq::empty());
        assert(texts(r.available_modes@) =~= Seq::empty());
        assert(option_views(r.available_config_options@) =~= Seq::empty());
        r
    }

    /// The models that the session offers.
    pub fn get_available_models(&self) -> (r: Vec<String>)
        ensures
            texts(r@) == self@.available_models,
    {
        copy_all(&self.available_models)
    }

    pub fn set_available_models(&mut self, models: Vec<String>)
        ensures
            final(self)@ == (StateView { available_models: texts(models@), ..old(self)@ }),
    {
        self.available_models = models;
    }

    /// The model that the user chose.
    pub fn get_active_model(&self) -> (r: Option<String>)
        ensures
            opt_text(r) == self@.active_model,
    {
        copy_opt(&self.active_model)
    }

    pub fn set_active_model(&mut self, model: Option<String>)
        ensures
            final(self)@ == (StateView { active_model: opt_text(model), ..old(self)@ }),
    {
        self.active_model = model;
    }

    /// The modes that the session offers.
    pub fn get_available_modes(&self) -> (r: Vec<String>)
        ensures
            texts(r@) == self@.available_modes,
    {
        copy_all(&self.available_modes)
    }

    pub fn set_available_modes(&mut self, modes: Vec<String>)
        ensures
            final(self)@ == (StateView { available_modes: texts(modes@), ..old(self)@ }),
    {
        self.available_modes = modes;
    }

    /// The mode that the session is in.
    pub fn get_active_mode(&self) -> (r: Option<String>)
        ensures
            opt_text(r) == self@.active_mode,
    {
        copy_opt(&self.active_mode)
    }

    pub fn set_active_mode(&mut self, mode: Option<String>)
        ensures
            final(self)@ == (StateView { active_mode: opt_text(mode), ..old(self)@ }),
    {
        self.active_mode = mode;
    }

    /// The options that the session offers.
    pub fn get_available_config_options(&self) -> (r: Vec<SessionConfigOptionState>)
        ensures
            option_views(r@) == self@.available_config_options,
    {
        copy_options(&self.available_config_options)
    }

    pub fn set_available_config_options(&mut self, options: Vec<SessionConfigOptionState>)
        ensures
            final(self)@ == (StateView {
                available_config_options: option_views(options@),
                ..old(self)@
            }),
    {
        self.available_config_options = options;
    }

    /// Where new sessions work.
    pub fn get_working_dir(&self) -> (r: String)
        ensures
            r@ == self@.working_dir,
    {
        self.working_dir.clone()
    }

    pub fn set_working_dir(&mut self, path: String)
        ensures
            final(self)@ == (StateView { working_dir: path@, ..old(self)@ }),
    {
        self.working_dir = path;
    }

    /// The session, if there is one.
    pub fn get_session_id(&self) -> (r: Option<String>)
        ensures
            opt_text(r) == self@.session_id,
    {
        copy_opt(&self.session_id)
    }

    pub fn set_session_id(&mut self, session_id: Option<String>)
        ensures
            final(self)@ == (StateView { session_id: opt_text(session_id), ..old(self)@ }),
    {
        self.session_id = session_id;
    }

    /// The message that carries a text to the user.
    pub fn send_to_user(&self, text: String) -> (r: OutgoingMessage)
        ensures
            r@ == ReplyView::Text(text@),
    {
        OutgoingMessage::text(text)
    }

    /// The message that tells the user of an error.
    pub fn send_error(&self, error: String) -> (r: OutgoingMessage)
        ensures
            r@ == ReplyView::Error(error@),
    {
        OutgoingMessage::error(error)
    }

    /// Whether the user sees what the agent thinks.
    pub fn show_thinking(&self) -> (r: bool)
        ensures
            r == self@.show_thinking,
    {
        self.show_thinking
    }

    /// Whether the user sees which tools were approved.
    pub fn show_auto_approved(&self) -> (r: bool)
        ensures
            r == self@.show_auto_approved,
    {
        self.show_auto_approved
    }

    /// The servers that the agent is told of.
    pub fn mcp_servers(&self) -> (r: Vec<McpServer>)
        ensures
            server_views(r@) == self@.mcp_servers,
    {
        let mut r: Vec<McpServer> = Vec::new();
        match &self.mcp_servers {
            Some(v) => {
                let mut i: usize = 0;
                while i < v.len()
                    invariant
                        i <= v@.len(),
                        server_views(r@) == server_views(v@).take(i as int),
                    decreases v@.len() - i,
                {
                    r.push(McpServer { name: v[i].name.clone(), url: v[i].url.clone() });
                    assert(server_views(r@) == server_views(v@).take(i as int).push(
                        v@[i as int]@,
                    ));
                    i += 1;
                }
            },
            None => {},
        }
        assert(server_views(r@) =~= self@.mcp_servers);
        r
    }
}

/// An agent's answer to the request for a new session.
#[derive(Debug, Clone)]
pub struct SessionResponse {
    pub session_id: String,
    pub models: Option<Vec<String>>,
    pub modes: Option<Vec<String>>,
    pub config_options: Option<Vec<AgentOption>>,
}

/// What the client knows once a session has begun. What the agent does not say
/// about models, modes and options stays as it was; what the user had chosen is
/// forgotten.
pub open spec fn with_session(s: StateView, response: SessionResponse) -> StateView {
    StateView {
        session_id: Some(response.session_id@),
        active_model: None,
        active_mode: None,
        available_models: match response.models {
            Some(v) => texts(v@),
            None => s.available_models,
        },
        available_modes: match response.modes {
            Some(v) => texts(v@),
            None => s.available_modes,
        },
        available_config_options: match response.config_options {
            Some(v) => shown_options(v@),
            None => s.available_config_options,
        },
        ..s
    }
}

/// Takes over a new session.
pub fn apply_session_response(state: &mut AcpClientState, response: &SessionResponse)
    ensures
        final(state)@ == with_session(old(state)@, *response),
{
    state.set_session_id(Some(response.session_id.clone()));
    state.set_active_model(None);
    state.set_active_mode(None);
    if let Some(models) = &response.models {
        state.set_available_models(copy_all(models));
    }
    if let Some(modes) = &response.modes {
        state.set_available_modes(copy_all(modes));
    }
    if let Some(options) = &response.config_options {
        state.set_available_config_options(map_config_options(options));
    }
}

/// A client without servers to offer offers none, and otherwise all that it was
/// given, each by its name and address and in their order.
pub proof fn servers_are_offered_as_given(servers: Vec<McpServer>, i: int)
    requires
        0 <= i < servers@.len(),
    ensures
        opt_server_views(None).len() == 0,
        opt_server_views(Some(servers)).len() == servers@.len(),
        opt_server_views(Some(servers))[i] == (servers@[i].name@, servers@[i].url@),
{
}

/// What a client was told is what it tells: each thing that is set is what is read
/// afterwards, until it is set again.
pub proof fn clients_tell_what_they_were_told(
    s: &mut AcpClientState,
    after: &AcpClientState,
    word: Option<String>,
    words: Vec<String>,
    path: String,
    read: Option<String>,
    list: Vec<String>,
    dir: String,
)
    requires
        *after == *final(s),
    ensures
        call_ensures(AcpClientState::set_active_model, (s, word), ()) && call_ensures(
            AcpClientState::get_active_model,
            (after,),
            read,
        ) ==> opt_text(read) == opt_text(word),
        call_ensures(AcpClientState::set_active_mode, (s, word), ()) && call_ensures(
            AcpClientState::get_active_mode,
            (after,),
            read,
        ) ==> opt_text(read) == opt_text(word),
        call_ensures(AcpClientState::set_session_id, (s, word), ()) && call_ensures(
            AcpClientState::get_session_id,
            (after,),
            read,
        ) ==> opt_text(read) == opt_text(word),
        call_ensures(AcpClientState::set_available_models, (s, words), ()) && call_ensures(
            AcpClientState::get_available_models,
            (after,),
            list,
        ) ==> texts(list@) == texts(words@),
        call_ensures(AcpClientState::set_available_modes, (s, words), ()) && call_ensures(
            AcpClientState::get_available_modes,
            (after,),
            list,
        ) ==> texts(list@) == texts(words@),
        call_ensures(AcpClientState::set_working_dir, (s, path), ()) && call_ensures(
            AcpClientState::get_working_dir,
            (after,),
            dir,
        ) ==> dir@ == path@,
{
}

/// Setting one thing leaves all others as they were.
pub proof fn settings_do_not_touch_each_other(
    s: &mut AcpClientState,
    word: Option<String>,
    words: Vec<String>,
    path: String,
)
    ensures
        call_ensures(AcpClientState::set_active_model, (s, word), ()) ==> final(s)@ == (StateView {
            active_model: final(s)@.active_model,
            ..old(s)@
        }),
        call_ensures(AcpClientState::set_active_mode, (s, word), ()) ==> final(s)@ == (StateView {
            active_mode: final(s)@.active_mode,
            ..old(s)@
        }),
        call_ensures(AcpClientState::set_session_id, (s, word), ()) ==> final(s)@ == (StateView {
            session_id: final(s)@.session_id,
            ..old(s)@
        }),
        call_ensures(AcpClientState::set_available_models, (s, words), ()) ==> final(s)@ == (
        StateView { available_models: final(s)@.available_models, ..old(s)@ }),
        call_ensures(AcpClientState::set_available_modes, (s, words), ()) ==> final(s)@ == (
        StateView { available_modes: final(s)@.available_modes, ..old(s)@ }),
        call_ensures(AcpClientState::set_working_dir, (s, path), ()) ==> final(s)@ == (StateView {
            working_dir: final(s)@.working_dir,
            ..old(s)@
        }),
{
}

/// A new client has no session and knows of no models, modes and options; its
/// directory, its servers and what it shows are as it was made with.
pub proof fn new_clients_know_nothing(
    dir: String,
    thinking: bool,
    approved: bool,
    servers: Option<Vec<McpServer>>,
    r: AcpClientState,
)
    requires
        call_ensures(AcpClientState::new, (dir, thinking, approved, servers), r),
    ensures
        r@.session_id is None && r@.active_model is None && r@.active_mode is None,
        r@.available_models.len() == 0 && r@.available_modes.len() == 0
            && r@.available_config_options.len() == 0,
        r@.working_dir == dir@,
        r@.show_thinking == thinking,
        r@.show_auto_approved == approved,
        servers matches Some(v) ==> r@.mcp_servers == server_views(v@),
        servers is None ==> r@.mcp_servers.len() == 0,
{
}

/// What a client has to say to its user it says as text, and its errors as errors.
pub proof fn clients_speak_plainly(
    s: &AcpClientState,
    text: String,
    said: OutgoingMessage,
    yes: bool,
)
    ensures
        call_ensures(AcpClientState::send_to_user, (s, text), said) ==> said@ == ReplyView::Text(
            text@,
        ),
        call_ensures(AcpClientState::send_error, (s, text), said) ==> said@ == ReplyView::Error(
            text@,
        ),
        call_ensures(AcpClientState::show_thinking, (s,), yes) ==> yes == s@.show_thinking,
        call_ensures(AcpClientState::show_auto_approved, (s,), yes) ==> yes == s@.show_auto_approved,
{
}

/// A new session brings its name, and the models, modes and options that it names;
/// the model and the mode in use are open again.
pub proof fn sessions_are_taken_over(s: &mut AcpClientState, response: &SessionResponse)
    requires
        call_ensures(apply_session_response, (s, response), ()),
    ensures
        final(s)@.session_id == Some(response.session_id@),
        final(s)@.active_model is None && final(s)@.active_mode is None,
        response.models matches Some(v) ==> final(s)@.available_models == texts(v@),
        response.models is None ==> final(s)@.available_models == old(s)@.available_models,
        response.modes matches Some(v) ==> final(s)@.available_modes == texts(v@),
        response.modes is None ==> final(s)@.available_modes == old(s)@.available_modes,
        response.config_options matches Some(v) ==> final(s)@.available_config_options
            == shown_options(v@),
        response.config_options is None ==> final(s)@.available_config_options
            == old(s)@.available_config_options,
        final(s)@.working_dir == old(s)@.working_dir,
        final(s)@.mcp_servers == old(s)@.mcp_servers,
        final(s)@.show_thinking == old(s)@.show_thinking,
        final(s)@.show_auto_approved == old(s)@.show_auto_approved,
{
}

}
