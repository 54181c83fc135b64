//! The control-message loop of one connection to the avatar application.
//!
//! A connection starts with a queue of control requests: a status query,
//! then the registrations of the current configuration. The head of the
//! queue is sent and stays at the head until the reply that settles it has
//! come in; only one request is ever outstanding. Once the queue is empty
//! the connection streams parameter injections. The caller owns the socket:
//! it asks [`MessageLoop::next_action`] what to send, sends it, reads exactly
//! one message and hands it to [`MessageLoop::on_reply`].

use crate::decimal::{decimal, numbered};
use crate::text::{same, to_chars};
use crate::vts::requests::{
    envelope, Auth, AuthToken, ParameterCreation, VTSApiRequest, API_NAME, PLUGIN_DEVELOPER,
    REQUEST_ID, VTS_API_VERSION,
};
use crate::vts::responses::{
    APIError, APIStateResponse, AuthenticationResponse, AuthenticationToken, Discovery,
};
use std::collections::VecDeque;
use vstd::prelude::*;

verus! {

/// The port on which the avatar application listens unless told otherwise.
pub const DEFAULT_PORT: u16 = 8001;

/// The port on which the avatar application advertises itself.
pub const DISCOVERY_PORT: u16 = 47779;

/// How many seconds to wait for an advertisement.
pub const DISCOVERY_WAIT_SECONDS: u64 = 3;

/// Error code: the request needs an authenticated session.
pub const ERROR_NOT_AUTHENTICATED: u16 = 8;

/// Error code: the user has not answered the credential prompt yet.
pub const ERROR_TOKEN_REQUEST_PENDING: u16 = 51;

/// Error code: the parameter to register exists already.
pub const ERROR_PARAMETER_EXISTS: u16 = 352;

/// Error code: the parameter to register is one of the built-in ones.
pub const ERROR_PARAMETER_IS_DEFAULT: u16 = 354;

/// Error code: an injection carried no parameter.
pub const ERROR_NO_PARAMETER_DATA: u16 = 450;

/// A control request waiting in the queue.
#[derive(Clone, Debug, PartialEq, Eq)]
pub enum ControlMessage {
    StatusQuery,
    TokenRequest,
    Authenticate { token: String },
    RegisterParameter(ParameterCreation),
}

/// What a [`ControlMessage`] says, with texts as character sequences.
pub enum ControlMessageView {
    StatusQuery,
    TokenRequest,
    Authenticate { token: Seq<char> },
    RegisterParameter { name: Seq<char>, explanation: Seq<char>, rule: nat },
}

impl View for ControlMessage {
    type V = ControlMessageView;

    open spec fn view(&self) -> ControlMessageView {
        match *self {
            ControlMessage::StatusQuery => ControlMessageView::StatusQuery,
            ControlMessage::TokenRequest => ControlMessageView::TokenRequest,
            ControlMessage::Authenticate { token } => ControlMessageView::Authenticate {
                token: token@,
            },
            ControlMessage::RegisterParameter(p) => ControlMessageView::RegisterParameter {
                name: p.parameter_name@,
                explanation: p.explanation@,
                rule: p.rule as nat,
            },
        }
    }
}

/// The kind of message that asks for the session's status.
pub const STATE_REQUEST: &'static str = "APIStateRequest";

/// The kind of message that asks for a new credential.
pub const TOKEN_REQUEST: &'static str = "AuthenticationTokenRequest";

/// The kind of message that authenticates with a credential.
pub const AUTHENTICATION_REQUEST: &'static str = "AuthenticationRequest";

/// The kind of message that registers a parameter.
pub const PARAMETER_CREATION_REQUEST: &'static str = "ParameterCreationRequest";

impl ControlMessage {
    /// The kind of message under which the request goes out.
    pub open spec fn message_type(self) -> Seq<char> {
        match self {
            ControlMessage::StatusQuery => STATE_REQUEST@,
            ControlMessage::TokenRequest => TOKEN_REQUEST@,
            ControlMessage::Authenticate { .. } => AUTHENTICATION_REQUEST@,
            ControlMessage::RegisterParameter(_) => PARAMETER_CREATION_REQUEST@,
        }
    }

    /// The envelope under which the request goes out.
    pub fn header(&self) -> (request: VTSApiRequest<'static>)
        ensures
            request.api_name@ == API_NAME@,
            request.api_version@ == VTS_API_VERSION@,
            request.request_id@ == REQUEST_ID@,
            request.message_type@ == self.message_type(),
    {
        match self {
            ControlMessage::StatusQuery => envelope(STATE_REQUEST),
            ControlMessage::TokenRequest => envelope(TOKEN_REQUEST),
            ControlMessage::Authenticate { .. } => envelope(AUTHENTICATION_REQUEST),
            ControlMessage::RegisterParameter(_) => envelope(PARAMETER_CREATION_REQUEST),
        }
    }

    /// What a request for a new credential carries.
    pub fn token_request(&self) -> (data: Option<AuthToken<'static>>)
        ensures
            data is Some == (*self is TokenRequest),
            data matches Some(d) ==> d.plugin_name@ == REQUEST_ID@ && d.plugin_developer@
                == PLUGIN_DEVELOPER@ && d.plugin_icon is None,
    {
        match self {
            ControlMessage::TokenRequest => Some(
                AuthToken {
                    plugin_name: REQUEST_ID,
                    plugin_developer: PLUGIN_DEVELOPER,
                    plugin_icon: None,
                },
            ),
            _ => None,
        }
    }

    /// What an authentication request carries.
    pub fn authentication(&self) -> (data: Option<Auth<'_>>)
        ensures
            data is Some == (*self is Authenticate),
            data matches Some(d) ==> d.plugin_name@ == REQUEST_ID@ && d.plugin_developer@
                == PLUGIN_DEVELOPER@ && self@ == (ControlMessageView::Authenticate {
                token: d.authentication_token@,
            }),
    {
        match self {
            ControlMessage::Authenticate { token } => Some(
                Auth {
                    plugin_name: REQUEST_ID,
                    plugin_developer: PLUGIN_DEVELOPER,
                    authentication_token: token.as_str(),
                },
            ),
            _ => None,
        }
    }

    /// What a registration carries.
    pub fn registration(&self) -> (data: Option<&ParameterCreation>)
        ensures
            data is Some == (*self is RegisterParameter),
            data matches Some(d) ==> *self == ControlMessage::RegisterParameter(*d),
    {
        match self {
            ControlMessage::RegisterParameter(request) => Some(request),
            _ => None,
        }
    }
}

/// The kinds of text message that the avatar application sends.
#[derive(Clone, Copy, Debug, PartialEq, Eq, Structural)]
pub enum ReplyKind {
    ApiError,
    State,
    Token,
    Authentication,
    InjectAck,
    ParameterCreated,
    /// Any other kind, or none.
    Unrecognized,
}

/// The kind that a message's type tag names.
pub open spec fn kind_of_tag(tag: Option<Seq<char>>) -> ReplyKind {
    match tag {
        None => ReplyKind::Unrecognized,
        Some(name) => if name == "APIError"@ {
            ReplyKind::ApiError
        } else if name == "APIStateResponse"@ {
            ReplyKind::State
        } else if name == "AuthenticationTokenResponse"@ {
            ReplyKind::Token
        } else if name == "AuthenticationResponse"@ {
            ReplyKind::Authentication
        } else if name == "InjectParameterDataResponse"@ {
            ReplyKind::InjectAck
        } else if name == "ParameterCreationResponse"@ {
            ReplyKind::ParameterCreated
        } else {
            ReplyKind::Unrecognized
        },
    }
}

fn is_tag(tag: &[char], name: &str) -> (equal: bool)
    ensures
        equal == (tag@ == name@),
{
    let chars = to_chars(name);
    same(tag, chars.as_slice())
}

/// Tells the kind of a text message from its type tag, so that the caller
/// knows what to read in it.
pub fn reply_kind(message_type: Option<&str>) -> (kind: ReplyKind)
    ensures
        kind == kind_of_tag(
            match message_type {
                Some(tag) => Some(tag@),
                None => None,
            },
        ),
{
    let tag = match message_type {
        None => {
            return ReplyKind::Unrecognized;
        },
        Some(tag) => to_chars(tag),
    };
    if is_tag(tag.as_slice(), "APIError") {
        ReplyKind::ApiError
    } else if is_tag(tag.as_slice(), "APIStateResponse") {
        ReplyKind::State
    } else if is_tag(tag.as_slice(), "AuthenticationTokenResponse") {
        ReplyKind::Token
    } else if is_tag(tag.as_slice(), "AuthenticationResponse") {
        ReplyKind::Authentication
    } else if is_tag(tag.as_slice(), "InjectParameterDataResponse") {
        ReplyKind::InjectAck
    } else if is_tag(tag.as_slice(), "ParameterCreationResponse") {
        ReplyKind::ParameterCreated
    } else {
        ReplyKind::Unrecognized
    }
}

/// One message read from the connection, already told apart by its kind.
#[derive(Clone, Debug, PartialEq, Eq)]
pub enum Reply {
    /// An error envelope.
    ApiError(APIError),
    /// The answer to a status query.
    State(APIStateResponse),
    /// A granted credential.
    Token(AuthenticationToken),
    /// The verdict on an authentication request.
    Authentication(AuthenticationResponse),
    /// The acknowledgement of a parameter injection.
    InjectAck,
    /// The acknowledgement of a parameter registration.
    ParameterCreated,
    /// A text message of any other kind, or one that could not be read.
    Unrecognized,
    /// A ping or a pong.
    Heartbeat,
    /// Any other frame that is not text.
    Other,
}

/// What the loop reads in a [`Reply`].
pub enum ReplyView {
    ApiError { code: u16 },
    State { authenticated: bool },
    Token { token: Seq<char> },
    Authentication { accepted: bool },
    InjectAck,
    ParameterCreated,
    Unrecognized,
    Heartbeat,
    Other,
}

impl View for Reply {
    type V = ReplyView;

    open spec fn view(&self) -> ReplyView {
        match *self {
            Reply::ApiError(e) => ReplyView::ApiError { code: e.error_id },
            Reply::State(s) => ReplyView::State { authenticated: s.current_session_authenticated },
            Reply::Token(t) => ReplyView::Token { token: t.authentication_token@ },
            Reply::Authentication(a) => ReplyView::Authentication { accepted: a.authenticated },
            Reply::InjectAck => ReplyView::InjectAck,
            Reply::ParameterCreated => ReplyView::ParameterCreated,
            Reply::Unrecognized => ReplyView::Unrecognized,
            Reply::Heartbeat => ReplyView::Heartbeat,
            Reply::Other => ReplyView::Other,
        }
    }
}

/// What the caller owes the outside world after a reply.
#[derive(Clone, Debug, PartialEq, Eq)]
pub enum Effect {
    Nothing,
    /// Store this credential, replacing any stored one.
    PersistToken(String),
    /// Delete the stored credential.
    ClearToken,
    /// Report an error code that the protocol does not list.
    UnexpectedError(u16),
}

/// An [`Effect`] with its text as a character sequence.
pub enum EffectView {
    Nothing,
    PersistToken(Seq<char>),
    ClearToken,
    UnexpectedError(u16),
}

impl View for Effect {
    type V = EffectView;

    open spec fn view(&self) -> EffectView {
        match *self {
            Effect::Nothing => EffectView::Nothing,
            Effect::PersistToken(t) => EffectView::PersistToken(t@),
            Effect::ClearToken => EffectView::ClearToken,
            Effect::UnexpectedError(c) => EffectView::UnexpectedError(c),
        }
    }
}

/// What to do before the next read.
#[derive(Clone, Debug, PartialEq, Eq)]
pub enum Action<'a> {
    /// Send nothing: the last message read was a heartbeat, and the request
    /// sent before it is still unanswered.
    Hold,
    /// Send this control request. It stays queued until its reply is in.
    Send(&'a ControlMessage),
    /// The queue is empty: send the next parameter injection, if there is one.
    Stream,
}

/// The mathematical state of a message loop.
pub struct LoopState {
    /// Pending control requests, the next one to send first.
    pub queue: Seq<ControlMessageView>,
    /// The credential in hand.
    pub token: Option<Seq<char>>,
    /// Whether the next iteration must not send.
    pub hold: bool,
}

/// The two phases of a connection that stands.
#[derive(Clone, Copy, Debug, PartialEq, Eq, Structural)]
pub enum Phase {
    /// Control requests are still queued.
    Connected,
    /// The queue is empty, and parameter injections flow.
    Streaming,
}

/// The phase of a state.
pub open spec fn phase_of(state: LoopState) -> Phase {
    if state.queue.len() > 0 {
        Phase::Connected
    } else {
        Phase::Streaming
    }
}

/// The request that asks for authentication: with the credential in hand, or,
/// without one, for a new credential.
pub open spec fn auth_request(token: Option<Seq<char>>) -> ControlMessageView {
    match token {
        Some(t) => ControlMessageView::Authenticate { token: t },
        None => ControlMessageView::TokenRequest,
    }
}

/// The queue without its head; an empty queue stays empty.
pub open spec fn dequeued(queue: Seq<ControlMessageView>) -> Seq<ControlMessageView> {
    if queue.len() > 0 {
        queue.drop_first()
    } else {
        queue
    }
}

/// Whether an error code reports that a registration is already satisfied.
pub open spec fn settles_registration(code: u16) -> bool {
    code == ERROR_PARAMETER_EXISTS || code == ERROR_PARAMETER_IS_DEFAULT
}

/// Whether an error code is one the protocol lists.
pub open spec fn known_error(code: u16) -> bool {
    ||| code == ERROR_NOT_AUTHENTICATED
    ||| code == ERROR_TOKEN_REQUEST_PENDING
    ||| code == ERROR_PARAMETER_EXISTS
    ||| code == ERROR_PARAMETER_IS_DEFAULT
    ||| code == ERROR_NO_PARAMETER_DATA
}

/// The queue of a fresh connection or a fresh configuration: the status
/// query, then the registrations in their order.
pub open spec fn seeded(registrations: Seq<ControlMessageView>) -> Seq<ControlMessageView> {
    seq![ControlMessageView::StatusQuery] + registrations
}

/// The state in which a connection starts.
pub open spec fn started(
    token: Option<Seq<char>>,
    registrations: Seq<ControlMessageView>,
) -> LoopState {
    LoopState { queue: seeded(registrations), token, hold: false }
}

/// The state after a reply.
pub open spec fn after_reply(pre: LoopState, reply: ReplyView) -> LoopState {
    match reply {
        ReplyView::State { authenticated } => LoopState {
            queue: if authenticated {
                dequeued(pre.queue)
            } else {
                seq![auth_request(pre.token)] + dequeued(pre.queue)
            },
            token: pre.token,
            hold: false,
        },
        ReplyView::Token { token } => LoopState {
            queue: seq![auth_request(Some(token))] + dequeued(pre.queue),
            token: Some(token),
            hold: false,
        },
        ReplyView::Authentication { accepted } => if accepted {
            LoopState { queue: dequeued(pre.queue), token: pre.token, hold: false }
        } else {
            LoopState {
                queue: dequeued(pre.queue).push(auth_request(None)),
                token: None,
                hold: false,
            }
        },
        ReplyView::ApiError { code } => LoopState {
            queue: if settles_registration(code) {
                dequeued(pre.queue)
            } else {
                pre.queue
            },
            token: pre.token,
            hold: false,
        },
        ReplyView::ParameterCreated => LoopState {
            queue: dequeued(pre.queue),
            token: pre.token,
            hold: false,
        },
        ReplyView::InjectAck | ReplyView::Unrecognized => LoopState {
            queue: pre.queue,
            token: pre.token,
            hold: false,
        },
        ReplyView::Heartbeat => LoopState { queue: pre.queue, token: pre.token, hold: true },
        ReplyView::Other => pre,
    }
}

/// What a reply asks of the caller.
pub open spec fn effect_of(reply: ReplyView) -> EffectView {
    match reply {
        ReplyView::Token { token } => EffectView::PersistToken(token),
        ReplyView::Authentication { accepted } => if accepted {
            EffectView::Nothing
        } else {
            EffectView::ClearToken
        },
        ReplyView::ApiError { code } => if known_error(code) {
            EffectView::Nothing
        } else {
            EffectView::UnexpectedError(code)
        },
        _ => EffectView::Nothing,
    }
}

/// The views of a run of control messages.
pub open spec fn views_of(messages: Seq<ControlMessage>) -> Seq<ControlMessageView> {
    messages.map_values(|m: ControlMessage| m@)
}

/// The registration requests of a configuration, as queued.
pub open spec fn registration_views(registrations: Seq<ParameterCreation>) -> Seq<
    ControlMessageView,
> {
    registrations.map_values(
        |p: ParameterCreation|
            ControlMessageView::RegisterParameter {
                name: p.parameter_name@,
                explanation: p.explanation@,
                rule: p.rule as nat,
            },
    )
}

/// The status query that opens every queue.
pub fn req_status_msg() -> (message: ControlMessage)
    ensures
        message@ == ControlMessageView::StatusQuery,
{
    ControlMessage::StatusQuery
}

/// The request that asks for authentication: with the credential in hand,
/// word for word, or, without one, for a new credential.
pub fn auth(token: &Option<String>) -> (message: ControlMessage)
    ensures
        message@ == auth_request(
            match *token {
                Some(t) => Some(t@),
                None => None,
            },
        ),
{
    match token {
        Some(t) => ControlMessage::Authenticate { token: t.clone() },
        None => ControlMessage::TokenRequest,
    }
}

/// The control-message loop of one connection.
pub struct MessageLoop {
    queue: VecDeque<ControlMessage>,
    token: Option<String>,
    hold: bool,
}

impl View for MessageLoop {
    type V = LoopState;

    closed spec fn view(&self) -> LoopState {
        LoopState {
            queue: views_of(self.queue@),
            token: match self.token {
                Some(t) => Some(t@),
                None => None,
            },
            hold: self.hold,
        }
    }
}

impl MessageLoop {
    /// The loop of a connection that has just been made. Nothing of an
    /// earlier connection enters: the queue is the status query followed by
    /// the registrations, and the credential is the stored one.
    pub fn start(token: Option<String>, registrations: Vec<ParameterCreation>) -> (fresh: Self)
        ensures
            fresh@ == started(
                match token {
                    Some(t) => Some(t@),
                    None => None,
                },
                registration_views(registrations@),
            ),
    {
        let mut fresh = MessageLoop { queue: VecDeque::new(), token, hold: false };
        fresh.seed(registrations);
        fresh
    }

    /// Takes up a new configuration: whatever was queued is dropped, and the
    /// queue is the status query followed by the new registrations.
    pub fn reload(&mut self, registrations: Vec<ParameterCreation>)
        ensures
            final(self)@.queue == seeded(registration_views(registrations@)),
            final(self)@.token == old(self)@.token,
            final(self)@.hold == old(self)@.hold,
    {
        self.seed(registrations);
    }

    fn seed(&mut self, registrations: Vec<ParameterCreation>)
        ensures
            final(self)@.queue == seeded(registration_views(registrations@)),
            final(self).token == old(self).token,
            final(self).hold == old(self).hold,
    {
        let ghost wanted = registrations@;
        self.queue.clear();
        self.queue.push_back(req_status_msg());
        assert(views_of(self.queue@) =~= seeded(registration_views(wanted.take(0))));
        for request in it: registrations
            invariant
                it.seq() == wanted,
                views_of(self.queue@) == seeded(registration_views(wanted.take(it.index() as int))),
                self.token == old(self).token,
                self.hold == old(self).hold,
        {
            let ghost before = self.queue@;
            let ghost done = it.index() as int;
            let message = ControlMessage::RegisterParameter(request);
            self.queue.push_back(message);
            assert(views_of(self.queue@) =~= views_of(before).push(message@));
            assert(registration_views(wanted.take(done + 1)) =~= registration_views(
                wanted.take(done),
            ).push(message@));
            assert(seeded(registration_views(wanted.take(done + 1))) =~= seeded(
                registration_views(wanted.take(done)),
            ).push(message@));
        }
        assert(wanted.take(wanted.len() as int) =~= wanted);
    }

    /// The transport failed. Nothing of the loop outlives the connection:
    /// the search for the avatar application starts over.
    pub fn fault(self) -> (connector: Connector)
        ensures
            connector@ == DEFAULT_PORT,
    {
        Connector::new()
    }

    /// What to do before the next read.
    pub fn next_action(&self) -> (action: Action<'_>)
        ensures
            self@.hold ==> action is Hold,
            !self@.hold && self@.queue.len() > 0 ==> (action matches Action::Send(m) && m@
                == self@.queue[0]),
            !self@.hold && self@.queue.len() == 0 ==> action is Stream,
    {
        if self.hold {
            Action::Hold
        } else if self.queue.len() > 0 {
            Action::Send(&self.queue[0])
        } else {
            Action::Stream
        }
    }

    /// Where the connection stands.
    pub fn phase(&self) -> (phase: Phase)
        ensures
            phase == phase_of(self@),
    {
        if self.queue.len() > 0 {
            Phase::Connected
        } else {
            Phase::Streaming
        }
    }

    /// The number of control requests still queued.
    pub fn pending(&self) -> (n: usize)
        ensures
            n == self@.queue.len(),
    {
        self.queue.len()
    }

    /// The credential in hand.
    pub fn token(&self) -> (token: &Option<String>)
        ensures
            self@.token == match *token {
                Some(t) => Some(t@),
                None => None,
            },
    {
        &self.token
    }

    fn dequeue(&mut self)
        ensures
            final(self)@.queue == dequeued(old(self)@.queue),
            final(self).token == old(self).token,
            final(self).hold == old(self).hold,
    {
        let ghost before = self.queue@;
        let _ = self.queue.pop_front();
        assert(views_of(self.queue@) =~= dequeued(views_of(before)));
    }

    fn push_front(&mut self, message: ControlMessage)
        ensures
            final(self)@.queue == seq![message@] + old(self)@.queue,
            final(self).token == old(self).token,
            final(self).hold == old(self).hold,
    {
        let ghost before = self.queue@;
        self.queue.push_front(message);
        assert(views_of(self.queue@) =~= seq![message@] + views_of(before));
    }

    fn push_back(&mut self, message: ControlMessage)
        ensures
            final(self)@.queue == old(self)@.queue.push(message@),
            final(self).token == old(self).token,
            final(self).hold == old(self).hold,
    {
        let ghost before = self.queue@;
        self.queue.push_back(message);
        assert(views_of(self.queue@) =~= views_of(before).push(message@));
    }

    /// Takes in the one message read after [`MessageLoop::next_action`] and
    /// returns what the caller has to do about it.
    pub fn on_reply(&mut self, reply: Reply) -> (effect: Effect)
        ensures
            final(self)@ == after_reply(old(self)@, reply@),
            effect@ == effect_of(reply@),
    {
        match reply {
            Reply::State(state) => {
                self.dequeue();
                if !state.current_session_authenticated {
                    let request = auth(&self.token);
                    self.push_front(request);
                }
                self.hold = false;
                Effect::Nothing
            },
            Reply::Token(grant) => {
                let token = grant.authentication_token;
                self.token = Some(token.clone());
                self.dequeue();
                let request = auth(&self.token);
                self.push_front(request);
                self.hold = false;
                Effect::PersistToken(token)
            },
            Reply::Authentication(verdict) => {
                self.dequeue();
                self.hold = false;
                if verdict.authenticated {
                    Effect::Nothing
                } else {
                    self.token = None;
                    let request = auth(&self.token);
                    self.push_back(request);
                    Effect::ClearToken
                }
            },
            Reply::ApiError(error) => {
                let code = error.error_id;
                self.hold = false;
                if code == ERROR_PARAMETER_EXISTS || code == ERROR_PARAMETER_IS_DEFAULT {
                    self.dequeue();
                    Effect::Nothing
                } else if code == ERROR_NOT_AUTHENTICATED || code == ERROR_TOKEN_REQUEST_PENDING
                    || code == ERROR_NO_PARAMETER_DATA {
                    Effect::Nothing
                } else {
                    Effect::UnexpectedError(code)
                }
            },
            Reply::ParameterCreated => {
                self.dequeue();
                self.hold = false;
                Effect::Nothing
            },
            Reply::InjectAck => {
                self.hold = false;
                Effect::Nothing
            },
            Reply::Unrecognized => {
                self.hold = false;
                Effect::Nothing
            },
            Reply::Heartbeat => {
                self.hold = true;
                Effect::Nothing
            },
            Reply::Other => Effect::Nothing,
        }
    }
}

/// Where to look for the avatar application.
pub struct Connector {
    port: u16,
}

impl View for Connector {
    type V = u16;

    closed spec fn view(&self) -> u16 {
        self.port
    }
}

impl Connector {
    /// Starts at the default port.
    pub fn new() -> (connector: Self)
        ensures
            connector@ == DEFAULT_PORT,
    {
        Connector { port: DEFAULT_PORT }
    }

    /// The port to try next.
    pub fn port(&self) -> (port: u16)
        ensures
            port == self@,
    {
        self.port
    }

    /// The address to try next.
    pub fn endpoint(&self) -> (address: String)
        ensures
            address@ == "ws://localhost:"@ + decimal(self@ as nat),
    {
        numbered("ws://localhost:", self.port as u64)
    }

    /// The connection stands: its message loop starts, with the stored
    /// credential and the registrations of the configuration.
    pub fn connected(self, token: Option<String>, registrations: Vec<ParameterCreation>) -> (fresh:
        MessageLoop)
        ensures
            fresh@ == started(
                match token {
                    Some(t) => Some(t@),
                    None => None,
                },
                registration_views(registrations@),
            ),
    {
        MessageLoop::start(token, registrations)
    }

    /// Takes in what came of waiting for an advertisement after a refused
    /// connection: an advertised port is tried next, and without one the
    /// same port is tried again.
    pub fn on_refused(&mut self, advertised: Option<&Discovery>)
        ensures
            final(self)@ == match advertised {
                Some(found) => found.port,
                None => old(self)@,
            },
    {
        if let Some(found) = advertised {
            self.port = found.port;
        }
    }
}

/// A connection starts cold, however the one before it ended: its queue is
/// the status query followed by the registrations, in their order, and
/// nothing else, and the first iteration is free to send.
pub proof fn lemma_cold_start(token: Option<Seq<char>>, registrations: Seq<ControlMessageView>)
    ensures
        started(token, registrations).queue.len() == registrations.len() + 1,
        started(token, registrations).queue[0] == ControlMessageView::StatusQuery,
        forall|i: int|
            0 <= i < registrations.len() ==> started(token, registrations).queue[i + 1]
                == #[trigger] registrations[i],
        !started(token, registrations).hold,
{
}

/// A granted credential is handed over for storing as it came, and a
/// connection that starts with the stored credential authenticates with
/// it word for word. A rejected credential is dropped from storage, and a
/// new one is asked for.
pub proof fn lemma_token_reused(
    before: LoopState,
    token: Seq<char>,
    registrations: Seq<ControlMessageView>,
)
    ensures
        effect_of(ReplyView::Token { token }) == EffectView::PersistToken(token),
        after_reply(before, ReplyView::Token { token }).queue[0]
            == (ControlMessageView::Authenticate { token }),
        after_reply(
            started(Some(token), registrations),
            ReplyView::State { authenticated: false },
        ).queue[0] == (ControlMessageView::Authenticate { token }),
        effect_of(ReplyView::Authentication { accepted: false }) == EffectView::ClearToken,
        after_reply(before, ReplyView::Authentication { accepted: false }).token is None,
        after_reply(before, ReplyView::Authentication { accepted: false }).queue.last()
            == ControlMessageView::TokenRequest,
{
}

} // verus!
