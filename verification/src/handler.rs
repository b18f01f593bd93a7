//! The part of the filter that works on one request.

use crate::auth::{
    conclude_check, debug_list, find_claims_part, find_missing, select_credentials, AuthError, AuthenticationError, CustomClaims,
    GetScopesResponse,
};
use crate::framing::{
    read_method_length, read_method_name, LENGTH_OFFSET, LENGTH_SIZE, NAME_OFFSET,
};
use crate::http::{fetch, refusal, Action, HttpCall, HttpResponse};
use crate::keys::{decode_base64_url, verify_token};
use crate::parse::Service;
use crate::root::FilterConfig;
use crate::string_map::StringMap;
use crate::text::{join3, split_whitespace};
use vstd::prelude::*;

verus! {

/// The part of the filter that works on one request.
#[derive(Debug)]
pub struct HttpHandler {
    config: FilterConfig,
    /// The claims of the request's token, once it has been accepted.
    token_claims: Option<CustomClaims>,
    /// Whether the upstream has been asked for the scopes of the method.
    get_scopes_dispatched: bool,
    /// What the work on the body waits for.
    phase: BodyPhase,
    /// The service description, as it was handed over.
    scopes_file: String,
    /// What the service description says.
    thrift_config: StringMap<Service>,
}

/// What the work on the body of a request waits for.
#[derive(Debug)]
enum BodyPhase {
    /// The body, or more of it.
    Idle,
    /// The bytes that hold the length of the method's name.
    Length,
    /// The bytes that hold the method's name, so many of them.
    Name(usize),
    /// The host's answer to the call that asks for scopes.
    Dispatch,
}

/// The model of what the work on the body of a request waits for.
pub enum PhaseModel {
    Idle,
    Length,
    Name(int),
    Dispatch,
}

/// How far the work on the body of a request has come: whether the upstream has
/// been asked for scopes, and what is waited for.
pub struct BodyState {
    pub dispatched: bool,
    pub phase: PhaseModel,
}

/// The model of the part of the filter that works on one request.
#[verifier::ext_equal]
pub struct HandlerModel {
    /// The service that the filter is configured for.
    pub service: Option<Seq<char>>,
    /// The scopes that the request's token gives, once it has been accepted.
    pub scopes: Option<Seq<Seq<char>>>,
    /// How far the work on the body has come.
    pub body: BodyState,
    /// The service description, as it was handed over.
    pub scopes_file: Seq<char>,
    /// What the service description says.
    pub services: crate::parse::Services,
}

/// What the work on the headers comes to.
#[derive(Debug)]
pub struct HeadersOutcome {
    /// The reply to send, if the request is not let through.
    pub response: Option<HttpResponse>,
    pub action: Action,
}

/// What has happened to the body of a request.
#[derive(Debug)]
pub enum BodyEvent {
    /// More of the body has come in.
    Arrived,
    /// The bytes that hold the length of the method's name have been read.
    MethodLength(Option<Vec<u8>>),
    /// The bytes that hold the method's name, so many of them, have been read.
    MethodName(usize, Option<Vec<u8>>),
    /// The host has been told to make the call that asks for scopes, and has
    /// accepted that, or has answered with this status.
    ScopesDispatch(Result<(), String>),
}

/// The model of what has happened to the body of a request.
#[verifier::ext_equal]
pub enum EventModel {
    Arrived,
    MethodLength(Option<Seq<u8>>),
    MethodName(int, Option<Seq<u8>>),
    ScopesDispatch(Result<(), Seq<char>>),
}

/// What is to be done about the body of a request.
#[derive(Debug)]
pub enum BodyStep {
    /// Read so many bytes of the body from there on: they hold the length of the
    /// method's name.
    ReadMethodLength { start: usize, size: usize },
    /// Read so many bytes of the body from there on: they hold the method's name.
    ReadMethodName { start: usize, size: usize },
    /// Make this call, which asks for the scopes of the method.
    Call(HttpCall),
    /// Send the reply, if there is one; this ends the work for now. The error says
    /// why scopes could not be asked for.
    Done { response: Option<HttpResponse>, error: Option<String>, action: Action },
}

/// The model of what is to be done about the body of a request.
#[verifier::ext_equal]
pub enum StepModel {
    ReadMethodLength { start: int, size: int },
    ReadMethodName { start: int, size: int },
    Call(crate::http::CallModel),
    Done {
        response: Option<crate::http::ResponseModel>,
        error: Option<Seq<char>>,
        action: Action,
    },
}

/// What the answer about scopes comes to.
#[derive(Debug)]
pub enum ScopesOutcome {
    /// The request goes on.
    Resume,
    /// The request is not let through, and this reply is sent.
    Refuse { error: AuthError, response: HttpResponse },
}

/// The model of an optional reply.
pub open spec fn response_of(response: Option<HttpResponse>) -> Option<
    crate::http::ResponseModel,
> {
    match response {
        Some(sent) => Some(sent@),
        None => None,
    }
}

impl View for BodyPhase {
    type V = PhaseModel;

    closed spec fn view(&self) -> PhaseModel {
        match self {
            BodyPhase::Idle => PhaseModel::Idle,
            BodyPhase::Length => PhaseModel::Length,
            BodyPhase::Name(length) => PhaseModel::Name(*length as int),
            BodyPhase::Dispatch => PhaseModel::Dispatch,
        }
    }
}

impl View for HttpHandler {
    type V = HandlerModel;

    closed spec fn view(&self) -> HandlerModel {
        HandlerModel {
            service: crate::pattern::text_of(self.config.service_name),
            scopes: scopes_of(self.token_claims),
            body: BodyState { dispatched: self.get_scopes_dispatched, phase: self.phase@ },
            scopes_file: self.scopes_file@,
            services: self.thrift_config@,
        }
    }
}

impl View for BodyEvent {
    type V = EventModel;

    open spec fn view(&self) -> EventModel {
        match self {
            BodyEvent::Arrived => EventModel::Arrived,
            BodyEvent::MethodLength(reply) => EventModel::MethodLength(
                crate::framing::bytes_of(*reply),
            ),
            BodyEvent::MethodName(length, reply) => EventModel::MethodName(
                *length as int,
                crate::framing::bytes_of(*reply),
            ),
            BodyEvent::ScopesDispatch(Ok(())) => EventModel::ScopesDispatch(Ok(())),
            BodyEvent::ScopesDispatch(Err(status)) => EventModel::ScopesDispatch(Err(status@)),
        }
    }
}

impl View for BodyStep {
    type V = StepModel;

    open spec fn view(&self) -> StepModel {
        match self {
            BodyStep::ReadMethodLength { start, size } => StepModel::ReadMethodLength {
                start: *start as int,
                size: *size as int,
            },
            BodyStep::ReadMethodName { start, size } => StepModel::ReadMethodName {
                start: *start as int,
                size: *size as int,
            },
            BodyStep::Call(call) => StepModel::Call(call@),
            BodyStep::Done { response, error, action } => StepModel::Done {
                response: response_of(*response),
                error: crate::pattern::text_of(*error),
                action: *action,
            },
        }
    }
}

/// Where the upstream answers which scopes a method asks for.
pub open spec fn scopes_path(service: Seq<char>, method: Seq<char>) -> Seq<char> {
    "/scopes/"@ + service + "/"@ + method
}

/// Why scopes could not be asked for, where the host answers the call with a
/// status.
pub open spec fn dispatch_failure_text(status: Seq<char>) -> Seq<char> {
    "Failed to dispatch get scopes call: status "@ + status
}

/// The end of the work on a body for now, with a refusal.
pub open spec fn refused_step(error: Option<Seq<char>>) -> StepModel {
    StepModel::Done {
        response: Some(crate::http::refusal_model(401)),
        error,
        action: Action::Pause,
    }
}

/// The end of the work on a body for now, with nothing to send.
pub open spec fn waiting_step() -> StepModel {
    StepModel::Done { response: None, error: None, action: Action::Pause }
}

/// What is done when a body names no method: wait for more of it, and refuse the
/// request when there is no more.
pub open spec fn no_method_step(end_of_stream: bool) -> StepModel {
    if end_of_stream {
        refused_step(None)
    } else {
        waiting_step()
    }
}

/// What is done when a body names a method: ask for its scopes, and refuse the
/// request when it is not known of which service.
pub open spec fn method_step(service: Option<Seq<char>>, method: Seq<char>) -> StepModel {
    match service {
        Some(name) => StepModel::Call(crate::http::fetch_model(scopes_path(name, method))),
        None => refused_step(Some("Service name not found"@)),
    }
}

/// What is done when the host has answered the call that asks for scopes: wait for
/// the upstream, and refuse the request when the call is not made.
pub open spec fn dispatch_step(answer: Result<(), Seq<char>>) -> StepModel {
    match answer {
        Ok(()) => waiting_step(),
        Err(status) => refused_step(Some(dispatch_failure_text(status))),
    }
}

/// A state in which scopes have not been asked for.
pub open spec fn asking(phase: PhaseModel) -> BodyState {
    BodyState { dispatched: false, phase }
}

/// What is done after an event, by a filter configured for a service, and how far
/// the work on the body has then come.
///
/// Once scopes have been asked for, nothing is done any more. Before that, the
/// arrival of the body starts the work anew: the length of the method's name is
/// read, then the name, and then the scopes of the method are asked for. Nothing
/// is done after an event that is not the one waited for.
pub open spec fn body_step(
    service: Option<Seq<char>>,
    state: BodyState,
    event: EventModel,
    end_of_stream: bool,
) -> (StepModel, BodyState) {
    if state.dispatched {
        (waiting_step(), state)
    } else {
        match (event, state.phase) {
            (EventModel::Arrived, _) => (
                StepModel::ReadMethodLength { start: 4, size: 4 },
                asking(PhaseModel::Length),
            ),
            (EventModel::MethodLength(reply), PhaseModel::Length) => {
                match crate::framing::length_in(reply) {
                    Some(length) => (
                        StepModel::ReadMethodName { start: 8, size: length },
                        asking(PhaseModel::Name(length)),
                    ),
                    None => (no_method_step(end_of_stream), asking(PhaseModel::Idle)),
                }
            },
            (EventModel::MethodName(length, reply), PhaseModel::Name(expected)) => {
                if length != expected {
                    (waiting_step(), state)
                } else {
                    match crate::framing::name_in(length, reply) {
                        Some(name) => (
                            method_step(service, name),
                            asking(
                                if service is Some {
                                    PhaseModel::Dispatch
                                } else {
                                    PhaseModel::Idle
                                },
                            ),
                        ),
                        None => (no_method_step(end_of_stream), asking(PhaseModel::Idle)),
                    }
                }
            },
            (EventModel::ScopesDispatch(answer), PhaseModel::Dispatch) => (
                dispatch_step(answer),
                BodyState { dispatched: answer is Ok, phase: PhaseModel::Idle },
            ),
            _ => (waiting_step(), state),
        }
    }
}

/// What the upstream answered about scopes: nothing, something that cannot be
/// read, and why, or the scopes.
pub open spec fn reply_of(body: Option<Result<GetScopesResponse, String>>) -> Option<
    Result<Seq<char>, Seq<char>>,
> {
    match body {
        None => None,
        Some(Err(error)) => Some(Err(error@)),
        Some(Ok(response)) => Some(Ok(response.scopes@)),
    }
}

/// The scopes that claims give.
pub open spec fn scopes_of(claims: Option<CustomClaims>) -> Option<Seq<Seq<char>>> {
    match claims {
        Some(held) => Some(crate::text::contents(held.scopes@)),
        None => None,
    }
}

/// Whether the holder of some scopes may call a method that asks for others.
pub open spec fn scopes_verdict(required: Seq<Seq<char>>, provided: Seq<Seq<char>>) -> Result<
    (),
    crate::auth::AuthErrorModel,
> {
    let missing = crate::auth::missing_scopes(required, provided);
    if missing.len() == 0 {
        Ok(())
    } else {
        Err(crate::auth::AuthErrorModel::Unauthorized(crate::auth::missing_message(missing)))
    }
}

/// Whether a request is let through, by the scopes of its token and the answer
/// of the upstream.
pub open spec fn auth_verdict(
    provided: Option<Seq<Seq<char>>>,
    reply: Option<Result<Seq<char>, Seq<char>>>,
) -> Result<(), crate::auth::AuthErrorModel> {
    match (provided, reply) {
        (None, _) => Err(
            crate::auth::AuthErrorModel::Unauthenticated("Missing token claims"@),
        ),
        (Some(_), None) => Err(
            crate::auth::AuthErrorModel::Unauthenticated("Empty body from scopes response"@),
        ),
        (Some(_), Some(Err(error))) => Err(crate::auth::AuthErrorModel::Unauthenticated(error)),
        (Some(scopes), Some(Ok(required))) => scopes_verdict(
            crate::text::words(required),
            scopes,
        ),
    }
}

/// A verdict and its model agree.
pub open spec fn verdict_is(
    verdict: Result<(), AuthError>,
    model: Result<(), crate::auth::AuthErrorModel>,
) -> bool {
    match model {
        Ok(()) => verdict is Ok,
        Err(error) => verdict is Err && verdict->Err_0@ == error,
    }
}

/// The status that a refused request is answered with.
pub open spec fn refusal_status(error: crate::auth::AuthErrorModel) -> u32 {
    match error {
        crate::auth::AuthErrorModel::Unauthenticated(_) => 401,
        crate::auth::AuthErrorModel::Unauthorized(_) => 403,
    }
}

/// Whether an outcome is the one called for: the request goes on, or the refusal
/// that belongs to the error is sent.
pub open spec fn outcome_is(
    outcome: ScopesOutcome,
    verdict: Result<(), crate::auth::AuthErrorModel>,
) -> bool {
    match verdict {
        Ok(()) => outcome is Resume,
        Err(reason) => outcome matches ScopesOutcome::Refuse { error, response } && error@
            == reason && response@ == crate::http::refusal_model(refusal_status(reason)),
    }
}

impl HandlerModel {
    /// The methods of the service that the filter is configured for, if the
    /// service description has it.
    pub open spec fn service_methods(self) -> Option<crate::parse::Methods> {
        match self.service {
            Some(name) => if self.services.contains_key(name) {
                Some(self.services[name])
            } else {
                None
            },
            None => None,
        }
    }
}

/// Says why scopes could not be asked for, where the host answers the call with a
/// status.
pub fn dispatch_failure(status: &str) -> (text: String)
    ensures
        text@ == dispatch_failure_text(status@),
{
    let mut text: String = "Failed to dispatch get scopes call: status ".to_owned();
    text.append(status);
    text
}

impl HttpHandler {
    /// The handler of a new request: nobody has been authenticated, and no scopes
    /// have been asked for.
    pub fn new(
        config: FilterConfig,
        scopes_file: String,
        thrift_config: StringMap<Service>,
    ) -> (handler: Self)
        ensures
            handler@ == (HandlerModel {
                service: crate::pattern::text_of(config.service_name),
                scopes: None,
                body: asking(PhaseModel::Idle),
                scopes_file: scopes_file@,
                services: thrift_config@,
            }),
    {
        HttpHandler {
            config,
            token_claims: None,
            get_scopes_dispatched: false,
            phase: BodyPhase::Idle,
            scopes_file,
            thrift_config,
        }
    }

    /// The configuration of the filter.
    pub fn config(&self) -> (config: &FilterConfig)
        ensures
            crate::pattern::text_of(config.service_name) == self@.service,
    {
        &self.config
    }

    /// The claims of the request's token, once it has been accepted.
    pub fn token_claims(&self) -> (claims: &Option<CustomClaims>)
        ensures
            scopes_of(*claims) == self@.scopes,
    {
        &self.token_claims
    }

    /// Whether the upstream has been asked for the scopes of the method.
    pub fn get_scopes_dispatched(&self) -> (dispatched: bool)
        ensures
            dispatched == self@.body.dispatched,
    {
        self.get_scopes_dispatched
    }

    /// The service description, as it was handed over.
    pub fn scopes_file(&self) -> (scopes_file: &str)
        ensures
            scopes_file@ == self@.scopes_file,
    {
        self.scopes_file.as_str()
    }

    /// What the service description says.
    pub fn thrift_config(&self) -> (thrift_config: &StringMap<Service>)
        ensures
            thrift_config@ == self@.services,
    {
        &self.thrift_config
    }

    /// Takes note of whether the request's token has been accepted, and with
    /// which claims. The client of a request whose token has not been is told so.
    pub fn on_http_request_headers(&mut self, authenticated: Result<CustomClaims, String>)
        -> (outcome: HeadersOutcome)
        ensures
            outcome.action == Action::Continue,
            match authenticated {
                Ok(claims) => outcome.response is None && final(self)@ == (HandlerModel {
                    scopes: scopes_of(Some(claims)),
                    ..old(self)@
                }),
                Err(_) => response_of(outcome.response) == Some(crate::http::refusal_model(401))
                    && final(self)@ == old(self)@,
            },
    {
        match authenticated {
            Ok(claims) => {
                self.token_claims = Some(claims);
                HeadersOutcome { response: None, action: Action::Continue }
            },
            Err(_) => HeadersOutcome { response: Some(refusal(401)), action: Action::Continue },
        }
    }

    /// Goes on with the work on the body of the request after an event.
    pub fn on_http_request_body(&mut self, event: BodyEvent, end_of_stream: bool) -> (step: BodyStep)
        requires
            event matches BodyEvent::MethodName(length, reply) ==> crate::framing::name_readable(
                length as int,
                crate::framing::bytes_of(reply),
            ),
        ensures
            step@ == body_step(old(self)@.service, old(self)@.body, event@, end_of_stream).0,
            final(self)@ == (HandlerModel {
                body: body_step(old(self)@.service, old(self)@.body, event@, end_of_stream).1,
                ..old(self)@
            }),
    {
        if self.get_scopes_dispatched {
            return Self::waiting();
        }
        match (event, &self.phase) {
            (BodyEvent::Arrived, _) => {
                self.phase = BodyPhase::Length;
                BodyStep::ReadMethodLength { start: LENGTH_OFFSET, size: LENGTH_SIZE }
            },
            (BodyEvent::MethodLength(reply), BodyPhase::Length) => {
                match read_method_length(reply) {
                    Some(length) => {
                        self.phase = BodyPhase::Name(length);
                        BodyStep::ReadMethodName { start: NAME_OFFSET, size: length }
                    },
                    None => {
                        self.phase = BodyPhase::Idle;
                        Self::without_method(end_of_stream)
                    },
                }
            },
            (BodyEvent::MethodName(length, reply), BodyPhase::Name(expected)) => {
                if length != *expected {
                    return Self::waiting();
                }
                match read_method_name(length, reply) {
                    Some(name) => self.apply_thrift_auth(name.as_str()),
                    None => {
                        self.phase = BodyPhase::Idle;
                        Self::without_method(end_of_stream)
                    },
                }
            },
            (BodyEvent::ScopesDispatch(answer), BodyPhase::Dispatch) => {
                self.phase = BodyPhase::Idle;
                match answer {
                    Ok(()) => {
                        self.get_scopes_dispatched = true;
                        Self::waiting()
                    },
                    Err(status) => Self::refused(Some(dispatch_failure(status.as_str()))),
                }
            },
            _ => Self::waiting(),
        }
    }

    /// Ends the work for now, with nothing to send.
    fn waiting() -> (step: BodyStep)
        ensures
            step@ == waiting_step(),
    {
        BodyStep::Done { response: None, error: None, action: Action::Pause }
    }

    /// Ends the work for now, with a refusal.
    fn refused(error: Option<String>) -> (step: BodyStep)
        ensures
            step@ == refused_step(crate::pattern::text_of(error)),
    {
        BodyStep::Done { response: Some(refusal(401)), error, action: Action::Pause }
    }

    /// What is done when a body names no method.
    fn without_method(end_of_stream: bool) -> (step: BodyStep)
        ensures
            step@ == no_method_step(end_of_stream),
    {
        if end_of_stream {
            Self::refused(None)
        } else {
            Self::waiting()
        }
    }

    /// Goes on with a request whose body names a method: its scopes are asked
    /// for, or the request is refused.
    fn apply_thrift_auth(&mut self, method_name: &str) -> (step: BodyStep)
        requires
            !old(self)@.body.dispatched,
        ensures
            step@ == method_step(old(self)@.service, method_name@),
            final(self)@ == (HandlerModel {
                body: asking(
                    if old(self)@.service is Some {
                        PhaseModel::Dispatch
                    } else {
                        PhaseModel::Idle
                    },
                ),
                ..old(self)@
            }),
    {
        match self.dispatch_get_scopes(method_name) {
            Ok(call) => {
                self.phase = BodyPhase::Dispatch;
                BodyStep::Call(call)
            },
            Err(error) => {
                self.phase = BodyPhase::Idle;
                Self::refused(Some(error))
            },
        }
    }

    /// The call that asks for the scopes of a method.
    pub fn dispatch_get_scopes(&self, method_name: &str) -> (call: Result<HttpCall, String>)
        ensures
            match self@.service {
                Some(service) => call is Ok && call->Ok_0@ == crate::http::fetch_model(
                    scopes_path(service, method_name@),
                ),
                None => call is Err && call->Err_0@ == "Service name not found"@,
            },
            call matches Ok(made) ==> made@.upstream == "auth"@ && made@.headers[1] == (
                ":path"@,
                "/scopes/"@ + self@.service->Some_0 + "/"@ + method_name@,
            ),
    {
        match &self.config.service_name {
            Some(service_name) => {
                let mut path: String = join3("/scopes/", service_name.as_str(), "/");
                path.append(method_name);
                Ok(fetch(path))
            },
            None => Err("Service name not found".to_owned()),
        }
    }

    /// The annotations of a method, by the service description.
    pub fn apply_thrift_auth_locally(&self, method_name: &str) -> (found: Result<
        &StringMap<String>,
        String,
    >)
        requires
            self@.service_methods() matches Some(methods) ==> methods.contains_key(method_name@),
        ensures
            match self@.service_methods() {
                Some(methods) => found is Ok && found->Ok_0@ == methods[method_name@].annotations,
                None => found is Err && found->Err_0@ == if self@.service is None {
                    "Service name not found"@
                } else {
                    "Scopes not found"@
                },
            },
            match self@.service {
                Some(name) => if self@.services.contains_key(name) {
                    found is Ok && found->Ok_0@ == self@.services[name][method_name@].annotations
                } else {
                    found is Err && found->Err_0@ == "Scopes not found"@
                },
                None => found is Err && found->Err_0@ == "Service name not found"@,
            },
    {
        let service_name: &String = match &self.config.service_name {
            Some(service_name) => service_name,
            None => {
                return Err("Service name not found".to_owned());
            },
        };
        match self.thrift_config.get(service_name.as_str()) {
            Some(service) => match service.methods.get(method_name) {
                Some(method) => Ok(&method.annotations),
                None => Err("Scopes not found".to_owned()),
            },
            None => Err("Scopes not found".to_owned()),
        }
    }

    /// Goes on with the request after the upstream has answered which scopes the
    /// method asks for.
    pub fn handle_get_scopes_res(&self, body: Option<Result<GetScopesResponse, String>>)
        -> (outcome: ScopesOutcome)
        ensures
            outcome_is(outcome, auth_verdict(self@.scopes, reply_of(body))),
            outcome is Resume <==> ({
                &&& self@.scopes matches Some(provided)
                &&& body matches Some(Ok(answer))
                &&& forall|i: int|
                    0 <= i < crate::text::words(answer.scopes@).len() ==> provided.contains(
                        #[trigger] crate::text::words(answer.scopes@)[i],
                    )
            }),
            outcome matches ScopesOutcome::Refuse { error, response } ==> response.status == (if (
            self@.scopes is Some && body matches Some(Ok(_))) {
                403u32
            } else {
                401u32
            }),
    {
        proof {
            crate::laws::law_resumed_iff_covered(self@.scopes, reply_of(body));
        }
        match self.validate_auth(body) {
            Ok(()) => ScopesOutcome::Resume,
            Err(error) => {
                let status: u32 = match &error {
                    AuthError::Unauthenticated(_) => 401,
                    AuthError::Unauthorized(_) => 403,
                };
                ScopesOutcome::Refuse { error, response: refusal(status) }
            },
        }
    }

    /// Decides whether the request is let through, by the claims of its token and
    /// the upstream's answer about scopes.
    pub fn validate_auth(&self, body: Option<Result<GetScopesResponse, String>>) -> (verdict: Result<
        (),
        AuthError,
    >)
        ensures
            verdict_is(verdict, auth_verdict(self@.scopes, reply_of(body))),
            verdict is Ok <==> ({
                &&& self@.scopes matches Some(provided)
                &&& body matches Some(Ok(answer))
                &&& forall|i: int|
                    0 <= i < crate::text::words(answer.scopes@).len() ==> provided.contains(
                        #[trigger] crate::text::words(answer.scopes@)[i],
                    )
            }),
    {
        proof {
            crate::laws::law_resumed_iff_covered(self@.scopes, reply_of(body));
        }
        let claims: &CustomClaims = match &self.token_claims {
            Some(claims) => claims,
            None => {
                return Err(AuthError::Unauthenticated("Missing token claims".to_owned()));
            },
        };
        let response: GetScopesResponse = match self.parse_required_scopes(body) {
            Ok(response) => response,
            Err(error) => {
                return Err(AuthError::Unauthenticated(error));
            },
        };
        let required_scopes: Vec<String> = split_whitespace(response.scopes.as_str());
        match self.authorize(required_scopes, &claims.scopes) {
            Ok(()) => Ok(()),
            Err(message) => Err(AuthError::Unauthorized(message)),
        }
    }

    /// Decides whether the request is let through, by the claims of its token and
    /// the method's annotation `scope` in the service description.
    pub fn validate_auth_with_local_thrift(&self, method_name: &str) -> (verdict: Result<
        (),
        AuthError,
    >)
        requires
            self@.scopes is Some ==> {
                &&& self@.service_methods() matches Some(methods)
                &&& methods.contains_key(method_name@)
                &&& methods[method_name@].annotations.contains_key("scope"@)
            },
        ensures
            verdict_is(
                verdict,
                match self@.scopes {
                    None => Err(
                        crate::auth::AuthErrorModel::Unauthenticated("Missing token claims"@),
                    ),
                    Some(provided) => scopes_verdict(
                        seq![
                            self@.service_methods().unwrap()[method_name@].annotations["scope"@],
                        ],
                        provided,
                    ),
                },
            ),
            verdict is Ok <==> (self@.scopes matches Some(provided) && provided.contains(
                self@.services[self@.service->Some_0][method_name@].annotations["scope"@],
            )),
    {
        proof {
            if let Some(provided) = self@.scopes {
                crate::auth::law_missing_of_one_scope(
                    self@.services[self@.service->Some_0][method_name@].annotations["scope"@],
                    provided,
                );
            }
        }
        let claims: &CustomClaims = match &self.token_claims {
            Some(claims) => claims,
            None => {
                return Err(AuthError::Unauthenticated("Missing token claims".to_owned()));
            },
        };
        let annotations: &StringMap<String> = match self.apply_thrift_auth_locally(method_name) {
            Ok(annotations) => annotations,
            Err(message) => {
                return Err(AuthError::Unauthenticated(message));
            },
        };
        let mut required_scopes: Vec<String> = Vec::new();
        match annotations.get("scope") {
            Some(scope) => {
                required_scopes.push(scope.clone());
            },
            None => {},
        }
        assert(crate::text::contents(required_scopes@) =~= seq![
            self@.service_methods().unwrap()[method_name@].annotations["scope"@],
        ]);
        match self.authorize(required_scopes, &claims.scopes) {
            Ok(()) => Ok(()),
            Err(message) => Err(AuthError::Unauthorized(message)),
        }
    }

    /// What the upstream answered about scopes, or why there is no answer.
    pub fn parse_required_scopes(&self, body: Option<Result<GetScopesResponse, String>>) -> (parsed:
        Result<GetScopesResponse, String>)
        ensures
            match body {
                Some(answer) => parsed == answer,
                None => parsed is Err && parsed->Err_0@ == "Empty body from scopes response"@,
            },
    {
        match body {
            Some(answer) => answer,
            None => Err("Empty body from scopes response".to_owned()),
        }
    }

    /// Decides whether the provided scopes cover the required ones.
    pub fn authorize(&self, required_scopes: Vec<String>, provided_scopes: &Vec<String>)
        -> (decision: Result<(), String>)
        ensures
            ({
                let missing = crate::auth::missing_scopes(
                    crate::text::contents(required_scopes@),
                    crate::text::contents(provided_scopes@),
                );
                match decision {
                    Ok(()) => missing.len() == 0,
                    Err(message) => missing.len() > 0 && message@ == crate::auth::missing_message(
                        missing,
                    ),
                }
            }),
    {
        let missing: Vec<String> = find_missing(&required_scopes, provided_scopes);
        assert(crate::text::contents(missing@).len() == missing@.len());
        if missing.len() == 0 {
            Ok(())
        } else {
            let mut message: String = "Missing required scopes: ".to_owned();
            let list: String = debug_list(&missing);
            message.append(list.as_str());
            Err(message)
        }
    }

    /// Checks the token of a request with the cached key, and gives the claims of
    /// the token, in JSON, as the token states them.
    ///
    /// Whether a token that is otherwise in order is refused because of its times
    /// depends on the clock, and is left open here. Whether the claims give scopes,
    /// and give them once, shows where the JSON is read, which is after the times
    /// have been found in order.
    pub fn authenticate(&self, auth_header: Option<String>, key: Option<Vec<u8>>) -> (claims: Result<
        Vec<u8>,
        AuthenticationError,
    >)
        ensures
            match crate::auth::credentials(
                crate::pattern::text_of(auth_header),
                crate::framing::bytes_of(key),
            ) {
                Err(error) => claims is Err && claims->Err_0@ == error,
                Ok((token, der)) => {
                    let readable = crate::keys::rs256_key_readable(der);
                    let verified = crate::keys::rs256_token_check(der, token);
                    match claims {
                        Ok(bytes) => crate::keys::token_outcome(readable, verified, None)
                            && crate::keys::base64_url_decode(crate::auth::claims_part(token))
                            == Some(bytes@),
                        Err(error) => crate::keys::token_outcome(readable, verified, Some(error@)),
                    }
                },
            },
    {
        let (token, der) = match select_credentials(auth_header, key) {
            Ok(selected) => selected,
            Err(error) => {
                return Err(error);
            },
        };
        match conclude_check(verify_token(&der, token.as_str())) {
            Some(error) => Err(error),
            None => {
                let part: String = find_claims_part(token.as_str());
                match decode_base64_url(part.as_str()) {
                    Ok(claims) => Ok(claims),
                    Err(_) => vstd::pervasive::unreached(),
                }
            },
        }
    }
}

} // verus!
