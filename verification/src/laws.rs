//! What holds of the filter as a whole.

use vstd::prelude::*;

verus! {

/// A request goes on after the answer about scopes exactly if its token has been
/// accepted, the answer could be read, and each scope that the answer names is
/// one that the token gives.
pub proof fn law_resumed_iff_covered(
    provided: Option<Seq<Seq<char>>>,
    reply: Option<Result<Seq<char>, Seq<char>>>,
)
    ensures
        crate::handler::auth_verdict(provided, reply) is Ok <==> ({
            &&& provided is Some
            &&& reply matches Some(Ok(required))
            &&& forall|i: int|
                0 <= i < crate::text::words(required).len() ==> provided->Some_0.contains(
                    #[trigger] crate::text::words(required)[i],
                )
        }),
{
    if let (Some(scopes), Some(Ok(required))) = (provided, reply) {
        crate::auth::law_covered_iff_each_is_provided(crate::text::words(required), scopes);
    }
}

/// As long as no token has been accepted, no answer lets the request go on: it is
/// answered with the status 401.
pub proof fn law_no_claims_no_resumption(reply: Option<Result<Seq<char>, Seq<char>>>)
    ensures
        crate::handler::auth_verdict(None, reply) matches Err(error)
            && crate::handler::refusal_status(error) == 401,
{
}

/// A request is refused with the status 403 exactly if its token has been
/// accepted, the answer could be read, and a scope is missing; every other
/// refusal has the status 401.
pub proof fn law_forbidden_iff_scope_missing(
    provided: Option<Seq<Seq<char>>>,
    reply: Option<Result<Seq<char>, Seq<char>>>,
)
    ensures
        crate::handler::auth_verdict(provided, reply) matches Err(error) ==> {
            let status = crate::handler::refusal_status(error);
            &&& status == 401 || status == 403
            &&& status == 403 <==> provided is Some && reply matches Some(Ok(_))
        },
{
}

/// A method that asks for no scopes may be called with every accepted token.
pub proof fn law_nothing_required_nothing_missing(provided: Seq<Seq<char>>, blank: Seq<char>)
    requires
        crate::text::words(blank).len() == 0,
    ensures
        crate::handler::auth_verdict(Some(provided), Some(Ok(blank))) is Ok,
{
}

/// A text that is one word has that word and no other.
proof fn lemma_one_word(word: Seq<char>)
    requires
        word.len() > 0,
        forall|i: int| 0 <= i < word.len() ==> !crate::text::white_space(#[trigger] word[i]),
    ensures
        crate::text::words(word) == seq![word],
{
    crate::text::lemma_word_length(word);
    let length = crate::text::word_length(word) as int;
    if length < word.len() {
        assert(crate::text::white_space(word[length]));
    }
    assert(word.take(length) =~= word);
    assert(crate::text::words(word.skip(length)) =~= Seq::empty());
    assert(crate::text::words(word) =~= seq![word]);
}

/// Where the annotation of a method is a single scope, the service description
/// and an upstream that answers with that scope lead to the same verdict.
pub proof fn law_local_and_remote_agree(provided: Seq<Seq<char>>, scope: Seq<char>)
    requires
        scope.len() > 0,
        forall|i: int| 0 <= i < scope.len() ==> !crate::text::white_space(#[trigger] scope[i]),
    ensures
        crate::handler::auth_verdict(Some(provided), Some(Ok(scope)))
            == crate::handler::scopes_verdict(seq![scope], provided),
{
    lemma_one_word(scope);
}

/// By the service description, a method may be called exactly by who holds the
/// scope that its annotation names.
pub proof fn law_local_scope_is_required(provided: Seq<Seq<char>>, scope: Seq<char>)
    ensures
        crate::handler::scopes_verdict(seq![scope], provided) is Ok <==> provided.contains(scope),
{
    crate::auth::law_covered_iff_each_is_provided(seq![scope], provided);
    if provided.contains(scope) {
        assert forall|i: int| 0 <= i < seq![scope].len() implies provided.contains(
            #[trigger] seq![scope][i],
        ) by {}
    }
    if forall|i: int| 0 <= i < seq![scope].len() ==> provided.contains(#[trigger] seq![scope][i]) {
        assert(provided.contains(seq![scope][0]));
    }
}

/// How far the work on the body has come after a sequence of events, each with
/// whether the body had then ended.
pub open spec fn state_after(
    service: Option<Seq<char>>,
    start: crate::handler::BodyState,
    inputs: Seq<(crate::handler::EventModel, bool)>,
) -> crate::handler::BodyState
    decreases inputs.len(),
{
    if inputs.len() == 0 {
        start
    } else {
        crate::handler::body_step(
            service,
            state_after(service, start, inputs.drop_last()),
            inputs.last().0,
            inputs.last().1,
        ).1
    }
}

/// What is done after one of a sequence of events.
pub open spec fn step_at(
    service: Option<Seq<char>>,
    start: crate::handler::BodyState,
    inputs: Seq<(crate::handler::EventModel, bool)>,
    at: int,
) -> crate::handler::StepModel {
    crate::handler::body_step(
        service,
        state_after(service, start, inputs.take(at)),
        inputs[at].0,
        inputs[at].1,
    ).0
}

/// With one of a sequence of events scopes have been asked for: they had not been
/// before it, and have been after it.
pub open spec fn asked_at(
    service: Option<Seq<char>>,
    start: crate::handler::BodyState,
    inputs: Seq<(crate::handler::EventModel, bool)>,
    at: int,
) -> bool {
    &&& !state_after(service, start, inputs.take(at)).dispatched
    &&& state_after(service, start, inputs.take(at + 1)).dispatched
}

/// The state after one more event is that which the event leads to.
proof fn lemma_state_after_next(
    service: Option<Seq<char>>,
    start: crate::handler::BodyState,
    inputs: Seq<(crate::handler::EventModel, bool)>,
    at: int,
)
    requires
        0 <= at < inputs.len(),
    ensures
        state_after(service, start, inputs.take(at + 1)) == crate::handler::body_step(
            service,
            state_after(service, start, inputs.take(at)),
            inputs[at].0,
            inputs[at].1,
        ).1,
{
    assert(inputs.take(at + 1).drop_last() =~= inputs.take(at));
    assert(inputs.take(at + 1).last() == inputs[at]);
}

/// That scopes have been asked for is never taken back, and the state then stays
/// as it is.
proof fn lemma_asked_stays(
    service: Option<Seq<char>>,
    start: crate::handler::BodyState,
    inputs: Seq<(crate::handler::EventModel, bool)>,
    from: int,
    to: int,
)
    requires
        0 <= from <= to <= inputs.len(),
        state_after(service, start, inputs.take(from)).dispatched,
    ensures
        state_after(service, start, inputs.take(to)) == state_after(
            service,
            start,
            inputs.take(from),
        ),
    decreases to - from,
{
    if from < to {
        lemma_asked_stays(service, start, inputs, from, to - 1);
        lemma_state_after_next(service, start, inputs, to - 1);
    }
}

/// Whatever comes, and in whatever order, scopes are asked for at most once; and
/// once they have been, nothing is read, called or sent any more, and the request
/// is held back.
pub proof fn law_scopes_are_asked_for_once(
    service: Option<Seq<char>>,
    start: crate::handler::BodyState,
    inputs: Seq<(crate::handler::EventModel, bool)>,
    first: int,
    later: int,
)
    requires
        0 <= first < later < inputs.len(),
        asked_at(service, start, inputs, first),
    ensures
        !asked_at(service, start, inputs, later),
        step_at(service, start, inputs, later) == crate::handler::waiting_step(),
{
    lemma_asked_stays(service, start, inputs, first + 1, later);
}

/// Where the host's answer to a call is waited for, that call has been made
/// before.
proof fn lemma_dispatch_follows_call(
    service: Option<Seq<char>>,
    inputs: Seq<(crate::handler::EventModel, bool)>,
    at: int,
)
    requires
        0 <= at <= inputs.len(),
        state_after(
            service,
            crate::handler::asking(crate::handler::PhaseModel::Idle),
            inputs.take(at),
        ).phase is Dispatch,
    ensures
        exists|call: int|
            0 <= call < at && #[trigger] step_at(
                service,
                crate::handler::asking(crate::handler::PhaseModel::Idle),
                inputs,
                call,
            ) is Call,
    decreases at,
{
    let start = crate::handler::asking(crate::handler::PhaseModel::Idle);
    assert(inputs.take(0).len() == 0);
    assert(at > 0);
    lemma_state_after_next(service, start, inputs, at - 1);
    let before = state_after(service, start, inputs.take(at - 1));
    if before.phase is Dispatch {
        lemma_dispatch_follows_call(service, inputs, at - 1);
    } else {
        assert(step_at(service, start, inputs, at - 1) is Call);
    }
}

/// Scopes count as asked for only with the host's acceptance of a call that had
/// been handed to it.
pub proof fn law_asking_follows_call(
    service: Option<Seq<char>>,
    inputs: Seq<(crate::handler::EventModel, bool)>,
    at: int,
)
    requires
        0 <= at < inputs.len(),
        asked_at(
            service,
            crate::handler::asking(crate::handler::PhaseModel::Idle),
            inputs,
            at,
        ),
    ensures
        inputs[at].0 matches crate::handler::EventModel::ScopesDispatch(answer) && answer is Ok,
        exists|call: int|
            0 <= call < at && #[trigger] step_at(
                service,
                crate::handler::asking(crate::handler::PhaseModel::Idle),
                inputs,
                call,
            ) is Call,
{
    let start = crate::handler::asking(crate::handler::PhaseModel::Idle);
    lemma_state_after_next(service, start, inputs, at);
    lemma_dispatch_follows_call(service, inputs, at);
}

/// While the body is worked on, the request is never let through: it is held
/// back, and all that is ever sent is the refusal with the status 401.
pub proof fn law_body_never_lets_through(
    service: Option<Seq<char>>,
    start: crate::handler::BodyState,
    inputs: Seq<(crate::handler::EventModel, bool)>,
    at: int,
)
    requires
        0 <= at < inputs.len(),
    ensures
        step_at(service, start, inputs, at) matches crate::handler::StepModel::Done {
            response,
            error,
            action,
        } ==> {
            &&& action == crate::http::Action::Pause
            &&& response is None || response == Some(crate::http::refusal_model(401))
            &&& error is Some ==> response is Some
        },
{
}

/// A call that the host does not make leaves the request where it was: the client
/// is told that it is refused, and when more of the body comes in, the work on the
/// body starts anew.
pub proof fn law_failed_call_may_be_repeated(
    service: Option<Seq<char>>,
    status: Seq<char>,
    end_of_stream: bool,
    ended_later: bool,
)
    ensures
        ({
            let waiting = crate::handler::asking(crate::handler::PhaseModel::Dispatch);
            let (step, state) = crate::handler::body_step(
                service,
                waiting,
                crate::handler::EventModel::ScopesDispatch(Err(status)),
                end_of_stream,
            );
            let (next, _) = crate::handler::body_step(
                service,
                state,
                crate::handler::EventModel::Arrived,
                ended_later,
            );
            &&& step == crate::handler::refused_step(
                Some(crate::handler::dispatch_failure_text(status)),
            )
            &&& next == (crate::handler::StepModel::ReadMethodLength { start: 4, size: 4 })
        }),
{
}

/// What the work on the body comes to when each read is answered with the bytes
/// that stand there, up to the call that asks for scopes.
pub open spec fn body_run(
    service: Option<Seq<char>>,
    dispatched: bool,
    message: Seq<u8>,
    end_of_stream: bool,
) -> crate::handler::StepModel {
    if dispatched {
        crate::handler::waiting_step()
    } else {
        match crate::framing::method_in(message) {
            Some(method) => crate::handler::method_step(service, method),
            None => crate::handler::no_method_step(end_of_stream),
        }
    }
}

/// The steps that the handler takes, one after the other, with each read answered
/// with the bytes that stand there, come to what the body calls for: the scopes
/// of its method are asked for; without a method, more of the body is waited for,
/// and at its end the request is refused.
pub proof fn law_body_run(
    service: Option<Seq<char>>,
    state: crate::handler::BodyState,
    message: Seq<u8>,
    end_of_stream: bool,
)
    ensures
        ({
            let result = body_run(service, state.dispatched, message, end_of_stream);
            let (first, after_first) = crate::handler::body_step(
                service,
                state,
                crate::handler::EventModel::Arrived,
                end_of_stream,
            );
            let (second, after_second) = crate::handler::body_step(
                service,
                after_first,
                crate::handler::EventModel::MethodLength(
                    crate::framing::bytes_at(message, 4, 4),
                ),
                end_of_stream,
            );
            if first is Done {
                first == result
            } else {
                &&& first == (crate::handler::StepModel::ReadMethodLength { start: 4, size: 4 })
                &&& if second is Done {
                    second == result
                } else {
                    &&& second matches crate::handler::StepModel::ReadMethodName { start, size }
                    &&& start == 8
                    &&& crate::handler::body_step(
                        service,
                        after_second,
                        crate::handler::EventModel::MethodName(
                            size,
                            crate::framing::bytes_at(message, 8, size),
                        ),
                        end_of_stream,
                    ).0 == result
                }
            }
        }),
{
}

/// A message that calls a method leads, in a filter configured for a service, to
/// the question which scopes that method of that service asks for.
pub proof fn law_method_is_asked_for(
    service: Seq<char>,
    version: Seq<u8>,
    method: Seq<char>,
    rest: Seq<u8>,
    end_of_stream: bool,
)
    requires
        version.len() == 4,
        vstd::utf8::encode_utf8(method).len() < 0x1_0000_0000,
        vstd::utf8::encode_utf8(method).len() + rest.len() > 0,
    ensures
        ({
            let encoded = vstd::utf8::encode_utf8(method);
            let message = version + crate::framing::big_endian_bytes(encoded.len() as int)
                + encoded + rest;
            body_run(Some(service), false, message, end_of_stream)
                == crate::handler::StepModel::Call(
                crate::http::fetch_model(crate::handler::scopes_path(service, method)),
            )
        }),
{
    crate::framing::law_method_is_read_back(version, method, rest);
}

// ---------------------------------------------------------------------------
// What is asked of the upstream
// ---------------------------------------------------------------------------
/// The path under which the scopes of a method are asked for has all of the service
/// and all of the method: no two methods of a service share it.
pub proof fn law_path_names_service_and_method(service: Seq<char>, method: Seq<char>)
    ensures
        crate::handler::scopes_path(service, method) == seq![
            '/',
            's',
            'c',
            'o',
            'p',
            'e',
            's',
            '/',
        ] + service + seq!['/'] + method,
        crate::handler::scopes_path(service, method).len() == 9 + service.len() + method.len(),
        crate::handler::scopes_path(service, method).take(9 + service.len() as int) == "/scopes/"@
            + service + "/"@,
        crate::handler::scopes_path(service, method).skip(9 + service.len() as int) == method,
        forall|other: Seq<char>| #[trigger]
            crate::handler::scopes_path(service, other) == crate::handler::scopes_path(
                service,
                method,
            ) ==> other == method,
{
    reveal_strlit("/scopes/");
    reveal_strlit("/");
    let skipped = 9 + service.len() as int;
    let path = crate::handler::scopes_path(service, method);
    assert(path =~= seq!['/', 's', 'c', 'o', 'p', 'e', 's', '/'] + service + seq!['/'] + method);
    assert(path.take(skipped) =~= "/scopes/"@ + service + "/"@);
    assert(path.skip(skipped) =~= method);
    assert forall|other: Seq<char>| #[trigger]
        crate::handler::scopes_path(service, other) == path implies other == method by {
        assert(crate::handler::scopes_path(service, other).skip(skipped) =~= other);
    }
}

/// Why scopes could not be asked for names the status, all of it, behind words that
/// are always the same.
pub proof fn law_dispatch_failure_names_the_status(status: Seq<char>)
    ensures
        ({
            let text = crate::handler::dispatch_failure_text(status);
            let words = "Failed to dispatch get scopes call: status "@;
            &&& text.len() == words.len() + status.len()
            &&& text.take(words.len() as int) == words
            &&& text.skip(words.len() as int) == status
        }),
{
    let text = crate::handler::dispatch_failure_text(status);
    let words = "Failed to dispatch get scopes call: status "@;
    assert(text.take(words.len() as int) =~= words);
    assert(text.skip(words.len() as int) =~= status);
}

// ---------------------------------------------------------------------------
// The steps of the work on the body
// ---------------------------------------------------------------------------
/// What comes in before scopes have been asked for starts the work: the four bytes of
/// the length are read first, whatever was waited for.
pub proof fn law_arrival_reads_the_length(
    service: Option<Seq<char>>,
    state: crate::handler::BodyState,
    end_of_stream: bool,
)
    requires
        !state.dispatched,
    ensures
        ({
            let (step, after) = crate::handler::body_step(
                service,
                state,
                crate::handler::EventModel::Arrived,
                end_of_stream,
            );
            &&& step == (crate::handler::StepModel::ReadMethodLength { start: 4, size: 4 })
            &&& !after.dispatched
            &&& after.phase is Length
        }),
{
}

/// Four bytes of length lead to the read of just as many bytes of name, whatever the
/// number is.
pub proof fn law_length_reads_the_name(
    service: Option<Seq<char>>,
    state: crate::handler::BodyState,
    bytes: Seq<u8>,
    end_of_stream: bool,
)
    requires
        !state.dispatched,
        state.phase is Length,
        bytes.len() == 4,
    ensures
        ({
            let length = ((bytes[0] * 256 + bytes[1]) * 256 + bytes[2]) * 256 + bytes[3];
            let (step, after) = crate::handler::body_step(
                service,
                state,
                crate::handler::EventModel::MethodLength(Some(bytes)),
                end_of_stream,
            );
            &&& step == (crate::handler::StepModel::ReadMethodName { start: 8, size: length })
            &&& !after.dispatched
            &&& after.phase == crate::handler::PhaseModel::Name(length)
        }),
{
    crate::framing::law_length_is_a_number(bytes);
}

/// A name that has come in whole leads to the call for the scopes of this method of the
/// configured service, whatever their names are; without a configured service the request
/// is refused with the status 401.
pub proof fn law_name_leads_to_the_call(
    service: Option<Seq<char>>,
    state: crate::handler::BodyState,
    method: Seq<char>,
    end_of_stream: bool,
)
    requires
        !state.dispatched,
        state.phase == crate::handler::PhaseModel::Name(
            vstd::utf8::encode_utf8(method).len() as int,
        ),
    ensures
        ({
            let encoded = vstd::utf8::encode_utf8(method);
            let (step, after) = crate::handler::body_step(
                service,
                state,
                crate::handler::EventModel::MethodName(encoded.len() as int, Some(encoded)),
                end_of_stream,
            );
            &&& !after.dispatched
            &&& match service {
                Some(name) => {
                    &&& after.phase is Dispatch
                    &&& step matches crate::handler::StepModel::Call(call)
                    &&& call.upstream == "auth"@
                    &&& call.headers == seq![
                        (":method"@, "GET"@),
                        (":path"@, "/scopes/"@ + name + "/"@ + method),
                        (":authority"@, "auth"@),
                    ]
                    &&& call.body is None
                    &&& call.trailers.len() == 0
                    &&& call.timeout_secs == 1
                },
                None => {
                    &&& after.phase is Idle
                    &&& step matches crate::handler::StepModel::Done { response, error, action }
                    &&& response matches Some(reply)
                    &&& reply.status == 401
                    &&& error == Some("Service name not found"@)
                    &&& action == crate::http::Action::Pause
                },
            }
        }),
{
    crate::framing::law_name_is_read_back(method);
}

/// As long as the length, or the name, has not come in whole, more of the body is waited
/// for; at its end the request is refused with the status 401.
pub proof fn law_missing_bytes_are_waited_for(
    service: Option<Seq<char>>,
    state: crate::handler::BodyState,
    reply: Option<Seq<u8>>,
    length: int,
    end_of_stream: bool,
)
    requires
        !state.dispatched,
        state.phase is Length && (reply matches Some(bytes) ==> bytes.len() != 4) || state.phase
            == crate::handler::PhaseModel::Name(length) && (reply matches Some(bytes)
            ==> bytes.len() != length),
    ensures
        ({
            let event = if state.phase is Length {
                crate::handler::EventModel::MethodLength(reply)
            } else {
                crate::handler::EventModel::MethodName(length, reply)
            };
            let (step, after) = crate::handler::body_step(service, state, event, end_of_stream);
            &&& !after.dispatched
            &&& after.phase is Idle
            &&& step matches crate::handler::StepModel::Done { response, error, action }
            &&& action == crate::http::Action::Pause
            &&& error is None
            &&& end_of_stream ==> (response matches Some(sent) && sent.status == 401)
            &&& !end_of_stream ==> response is None
        }),
{
}

/// The host's answer to the call decides: if it is accepted, scopes have been asked for,
/// and nothing is sent; if not, the request is refused with the status 401, and scopes
/// have not been asked for.
pub proof fn law_host_decides_on_the_call(
    service: Option<Seq<char>>,
    state: crate::handler::BodyState,
    answer: Result<(), Seq<char>>,
    end_of_stream: bool,
)
    requires
        !state.dispatched,
        state.phase is Dispatch,
    ensures
        ({
            let (step, after) = crate::handler::body_step(
                service,
                state,
                crate::handler::EventModel::ScopesDispatch(answer),
                end_of_stream,
            );
            &&& after.phase is Idle
            &&& after.dispatched <==> answer is Ok
            &&& step matches crate::handler::StepModel::Done { response, error, action }
            &&& action == crate::http::Action::Pause
            &&& match answer {
                Ok(_) => response is None && error is None,
                Err(status) => {
                    &&& response matches Some(sent)
                    &&& sent.status == 401
                    &&& error == Some("Failed to dispatch get scopes call: status "@ + status)
                },
            }
        }),
{
}

/// Once scopes have been asked for, and after every event that is not the one waited
/// for, nothing is done and nothing changes.
pub proof fn law_nothing_is_done_out_of_turn(
    service: Option<Seq<char>>,
    state: crate::handler::BodyState,
    event: crate::handler::EventModel,
    end_of_stream: bool,
)
    requires
        state.dispatched || match event {
            crate::handler::EventModel::Arrived => false,
            crate::handler::EventModel::MethodLength(_) => !(state.phase is Length),
            crate::handler::EventModel::MethodName(length, _) => state.phase
                != crate::handler::PhaseModel::Name(length),
            crate::handler::EventModel::ScopesDispatch(_) => !(state.phase is Dispatch),
        },
    ensures
        ({
            let (step, after) = crate::handler::body_step(service, state, event, end_of_stream);
            &&& after == state
            &&& step == (crate::handler::StepModel::Done {
                response: None,
                error: None,
                action: crate::http::Action::Pause,
            })
        }),
{
}

// ---------------------------------------------------------------------------
// The verdict on a request
// ---------------------------------------------------------------------------
/// What an outcome is, by the scopes of the token and the answer of the upstream: the
/// request goes on exactly if each word of the answer is one of the token's scopes; a
/// scope that is missing forbids it, with a message that lists all that are missing, in
/// order; and without claims or without an answer that can be read it is not known who
/// asks for what.
pub proof fn law_outcome_follows_from_the_scopes(
    outcome: crate::handler::ScopesOutcome,
    provided: Option<Seq<Seq<char>>>,
    reply: Option<Result<Seq<char>, Seq<char>>>,
)
    requires
        crate::handler::outcome_is(outcome, crate::handler::auth_verdict(provided, reply)),
    ensures
        match (provided, reply) {
            (Some(scopes), Some(Ok(required))) => {
                let missing = crate::auth::missing_scopes(crate::text::words(required), scopes);
                &&& outcome is Resume <==> forall|i: int|
                    0 <= i < crate::text::words(required).len() ==> scopes.contains(
                        #[trigger] crate::text::words(required)[i],
                    )
                &&& outcome matches crate::handler::ScopesOutcome::Refuse { error, response } ==> {
                    &&& error matches crate::auth::AuthError::Unauthorized(message)
                    &&& message@ == "Missing required scopes: "@ + crate::auth::debug_text(missing)
                    &&& response.status == 403
                    &&& response.body@ == "Access forbidden.\n"@
                    &&& response@ == crate::http::refusal_model(403)
                }
            },
            _ => {
                &&& outcome matches crate::handler::ScopesOutcome::Refuse { error, response }
                &&& error matches crate::auth::AuthError::Unauthenticated(message)
                &&& message@ == match (provided, reply) {
                    (None, _) => "Missing token claims"@,
                    (_, Some(Err(reason))) => reason,
                    _ => "Empty body from scopes response"@,
                }
                &&& response.status == 401
                &&& response.body@ == "Access forbidden.\n"@
                &&& response@ == crate::http::refusal_model(401)
            },
        },
{
    if let (Some(scopes), Some(Ok(required))) = (provided, reply) {
        crate::auth::law_covered_iff_each_is_provided(crate::text::words(required), scopes);
        crate::auth::law_message_lists_what_is_missing(
            crate::auth::missing_scopes(crate::text::words(required), scopes),
        );
    }
    if let crate::handler::ScopesOutcome::Refuse { error, response } = outcome {
        crate::http::law_response_model_keeps_everything(response);
    }
}

/// A verdict is that of its model, with the kind of the error and all of its message.
pub proof fn law_verdict_is_that_of_its_model(
    verdict: Result<(), crate::auth::AuthError>,
    message: Seq<char>,
)
    ensures
        crate::handler::verdict_is(verdict, Ok(())) <==> verdict is Ok,
        crate::handler::verdict_is(
            verdict,
            Err(crate::auth::AuthErrorModel::Unauthenticated(message)),
        ) <==> (verdict matches Err(crate::auth::AuthError::Unauthenticated(text)) && text@
            == message),
        crate::handler::verdict_is(
            verdict,
            Err(crate::auth::AuthErrorModel::Unauthorized(message)),
        ) <==> (verdict matches Err(crate::auth::AuthError::Unauthorized(text)) && text@
            == message),
{
}

/// A verdict on scopes that are asked for lets through exactly who holds each of them,
/// and otherwise lists all that are missing.
pub proof fn law_scopes_verdict_lists_what_is_missing(
    required: Seq<Seq<char>>,
    provided: Seq<Seq<char>>,
)
    ensures
        crate::handler::scopes_verdict(required, provided) is Ok <==> forall|i: int|
            0 <= i < required.len() ==> provided.contains(#[trigger] required[i]),
        crate::handler::scopes_verdict(required, provided) matches Err(error) ==> error
            == crate::auth::AuthErrorModel::Unauthorized(
            "Missing required scopes: "@ + crate::auth::debug_text(
                crate::auth::missing_scopes(required, provided),
            ),
        ),
{
    crate::auth::law_covered_iff_each_is_provided(required, provided);
}

// ---------------------------------------------------------------------------
// The service description
// ---------------------------------------------------------------------------
/// The methods of the configured service are those that the description has under its
/// name, whatever the name is; there are none only if no service is configured or the
/// description does not have it.
pub proof fn law_configured_service_is_found(model: crate::handler::HandlerModel)
    ensures
        match model.service {
            Some(name) => {
                &&& model.services.contains_key(name) ==> model.service_methods() == Some(
                    model.services[name],
                )
                &&& !model.services.contains_key(name) ==> model.service_methods() is None
            },
            None => model.service_methods() is None,
        },
{
}

// ---------------------------------------------------------------------------
// The models
// ---------------------------------------------------------------------------
/// The models of events have all of them.
pub proof fn law_event_models_keep_everything(length: usize, bytes: Vec<u8>, status: String)
    ensures
        crate::handler::BodyEvent::Arrived@ == crate::handler::EventModel::Arrived,
        crate::handler::BodyEvent::MethodLength(Some(bytes))@
            == crate::handler::EventModel::MethodLength(Some(bytes@)),
        crate::handler::BodyEvent::MethodLength(None)@ == crate::handler::EventModel::MethodLength(
            None,
        ),
        crate::handler::BodyEvent::MethodName(length, Some(bytes))@
            == crate::handler::EventModel::MethodName(length as int, Some(bytes@)),
        crate::handler::BodyEvent::MethodName(length, None)@
            == crate::handler::EventModel::MethodName(length as int, None),
        crate::handler::BodyEvent::ScopesDispatch(Ok(()))@
            == crate::handler::EventModel::ScopesDispatch(Ok(())),
        crate::handler::BodyEvent::ScopesDispatch(Err(status))@
            == crate::handler::EventModel::ScopesDispatch(Err(status@)),
{
}

/// The models of steps have all of them.
pub proof fn law_step_models_keep_everything(
    start: usize,
    size: usize,
    call: crate::http::HttpCall,
    response: crate::http::HttpResponse,
    error: String,
    action: crate::http::Action,
)
    ensures
        (crate::handler::BodyStep::ReadMethodLength { start, size })@ == (
        crate::handler::StepModel::ReadMethodLength { start: start as int, size: size as int }),
        (crate::handler::BodyStep::ReadMethodName { start, size })@ == (
        crate::handler::StepModel::ReadMethodName { start: start as int, size: size as int }),
        crate::handler::BodyStep::Call(call)@ == crate::handler::StepModel::Call(call@),
        (crate::handler::BodyStep::Done { response: Some(response), error: Some(error), action })@
            == (crate::handler::StepModel::Done {
            response: Some(response@),
            error: Some(error@),
            action,
        }),
        (crate::handler::BodyStep::Done { response: None, error: None, action })@ == (
        crate::handler::StepModel::Done { response: None, error: None, action }),
{
}

/// The models of claims and of the answer about scopes have all of them: each scope of
/// the token, in order, and the whole text of the answer or of the error.
pub proof fn law_scopes_keep_everything(
    claims: crate::auth::CustomClaims,
    answer: crate::auth::GetScopesResponse,
    error: String,
)
    ensures
        crate::handler::scopes_of(None) is None,
        crate::handler::scopes_of(Some(claims)) matches Some(scopes) && scopes.len()
            == claims.scopes@.len() && forall|i: int|
            0 <= i < scopes.len() ==> #[trigger] scopes[i] == claims.scopes@[i]@,
        crate::handler::reply_of(None) is None,
        crate::handler::reply_of(Some(Err(error))) == Some(
            Err::<Seq<char>, Seq<char>>(error@),
        ),
        crate::handler::reply_of(Some(Ok(answer))) == Some(
            Ok::<Seq<char>, Seq<char>>(answer.scopes@),
        ),
{
}

/// An answer that lists scopes, white space between them, asks for each of them: the
/// request goes on exactly if the token gives every one.
pub proof fn law_every_listed_scope_is_asked_for(
    provided: Seq<Seq<char>>,
    listed: Seq<Seq<char>>,
    gap: char,
)
    requires
        crate::text::white_space(gap),
        forall|i: int| 0 <= i < listed.len() ==> (#[trigger] listed[i]).len() > 0,
        forall|i: int, j: int|
            0 <= i < listed.len() && 0 <= j < listed[i].len() ==> !crate::text::white_space(
                #[trigger] listed[i][j],
            ),
    ensures
        crate::handler::auth_verdict(
            Some(provided),
            Some(Ok(crate::text::joined(listed, gap))),
        ) is Ok <==> forall|i: int|
            0 <= i < listed.len() ==> provided.contains(#[trigger] listed[i]),
{
    crate::text::law_splitting_undoes_joining(listed, gap);
    law_resumed_iff_covered(Some(provided), Some(Ok(crate::text::joined(listed, gap))));
}

/// One more scope in an answer, at its end, is one more that is asked for.
pub proof fn law_one_more_scope_is_one_more_condition(
    provided: Seq<Seq<char>>,
    front: Seq<char>,
    gap: char,
    scope: Seq<char>,
)
    requires
        crate::text::white_space(gap),
        scope.len() > 0,
        forall|i: int| 0 <= i < scope.len() ==> !crate::text::white_space(#[trigger] scope[i]),
    ensures
        crate::handler::auth_verdict(
            Some(provided),
            Some(Ok(front + seq![gap] + scope)),
        ) is Ok <==> crate::handler::auth_verdict(Some(provided), Some(Ok(front))) is Ok
            && provided.contains(scope),
{
    crate::text::law_every_word_counts(front, gap, scope);
    crate::text::law_one_word_is_itself(scope);
    crate::auth::law_missing_of_joined_lists(crate::text::words(front), seq![scope], provided);
    crate::auth::law_missing_of_one_scope(scope, provided);
}

} // verus!
