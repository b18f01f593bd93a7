use thrift_scope_filter::auth::{
    find_missing, select_credentials, AuthError, AuthenticationError, CustomClaims,
    GetScopesResponse,
};
use thrift_scope_filter::handler::{
    dispatch_failure, BodyEvent, BodyStep, HttpHandler, ScopesOutcome,
};
use thrift_scope_filter::http::{Action, HttpCall, HttpResponse};
use thrift_scope_filter::root::{FilterConfig, RootHandler};

const DESCRIPTION: &str = r#"
    namespace go my.potato

    service PotatoService {
        string getPotato(1:string id) (scope="read")
        void mashPotato(1:string id, 2:i32 level) (scope="write all" role="chef")
        void peelPotato()
    }
"#;

fn strings(items: &[&str]) -> Vec<String> {
    items.iter().map(|item| item.to_string()).collect()
}

fn handler(service_name: Option<&str>, scopes: Option<&[&str]>) -> HttpHandler {
    let root = RootHandler {
        config: FilterConfig {
            service_name: service_name.map(String::from),
        },
    };
    let mut handler = root.create_http_context(DESCRIPTION.to_string()).unwrap();
    if let Some(scopes) = scopes {
        let outcome = handler.on_http_request_headers(Ok(CustomClaims {
            scopes: strings(scopes),
        }));
        assert!(outcome.response.is_none());
        assert_eq!(outcome.action, Action::Continue);
    }
    handler
}

fn potato(scopes: Option<&[&str]>) -> HttpHandler {
    handler(Some("my.potato.PotatoService"), scopes)
}

fn required(scopes: &str) -> Option<Result<GetScopesResponse, String>> {
    Some(Ok(GetScopesResponse {
        scopes: scopes.to_string(),
    }))
}

fn assert_refusal(response: &HttpResponse, status: u32) {
    assert_eq!(response.status, status);
    assert_eq!(
        response.headers,
        vec![("Powered-By".to_string(), "wasm-envoy-proxy".to_string())]
    );
    assert_eq!(response.body, "Access forbidden.\n");
}

fn assert_fetch(call: &HttpCall, path: &str) {
    assert_eq!(call.upstream, "auth");
    assert_eq!(
        call.headers,
        vec![
            (":method".to_string(), "GET".to_string()),
            (":path".to_string(), path.to_string()),
            (":authority".to_string(), "auth".to_string()),
        ]
    );
    assert_eq!(call.body, None);
    assert_eq!(call.trailers, vec![]);
    assert_eq!(call.timeout_secs, 1);
}

fn message(name: &[u8], rest: &[u8]) -> Vec<u8> {
    let mut bytes = vec![0x80, 0x01, 0x00, 0x01];
    bytes.extend_from_slice(&(name.len() as u32).to_be_bytes());
    bytes.extend_from_slice(name);
    bytes.extend_from_slice(rest);
    bytes
}

fn bytes_at(body: &[u8], start: usize, size: usize) -> Option<Vec<u8>> {
    if start >= body.len() {
        None
    } else {
        let end = body.len().min(start + size);
        Some(body[start..end].to_vec())
    }
}

fn run(handler: &mut HttpHandler, body: &[u8], end_of_stream: bool) -> BodyStep {
    let mut event = BodyEvent::Arrived;
    loop {
        match handler.on_http_request_body(event, end_of_stream) {
            BodyStep::ReadMethodLength { start, size } => {
                event = BodyEvent::MethodLength(bytes_at(body, start, size));
            }
            BodyStep::ReadMethodName { start, size } => {
                event = BodyEvent::MethodName(size, bytes_at(body, start, size));
            }
            step => return step,
        }
    }
}

fn assert_waits(step: BodyStep) {
    match step {
        BodyStep::Done { response, error, action } => {
            assert!(response.is_none());
            assert_eq!(error, None);
            assert_eq!(action, Action::Pause);
        }
        other => panic!("{:?}", other),
    }
}

fn assert_refused(step: BodyStep, reason: Option<&str>) {
    match step {
        BodyStep::Done { response, error, action } => {
            assert_refusal(&response.unwrap(), 401);
            assert_eq!(error.as_deref(), reason);
            assert_eq!(action, Action::Pause);
        }
        other => panic!("{:?}", other),
    }
}

fn assert_reads_length(step: BodyStep) {
    match step {
        BodyStep::ReadMethodLength { start, size } => assert_eq!((start, size), (4, 4)),
        other => panic!("{:?}", other),
    }
}

fn assert_calls(step: BodyStep, path: &str) {
    match step {
        BodyStep::Call(call) => assert_fetch(&call, path),
        other => panic!("{:?}", other),
    }
}

#[test]
fn new_handler_knows_nobody() {
    let handler = potato(None);
    assert!(handler.token_claims().is_none());
    assert!(!handler.get_scopes_dispatched());
    assert_eq!(handler.scopes_file(), DESCRIPTION);
    assert_eq!(
        handler.config().service_name,
        Some("my.potato.PotatoService".to_string())
    );
    assert!(handler.thrift_config().get("my.potato.PotatoService").is_some());
}

#[test]
fn handler_needs_a_description_with_a_namespace() {
    let root = RootHandler::default();
    assert_eq!(
        root.create_http_context("service S { }".to_string())
            .unwrap_err(),
        "Namespace not found"
    );
}

#[test]
fn refused_token_is_answered_and_forgotten() {
    let mut handler = potato(None);
    let outcome = handler.on_http_request_headers(Err("expired".to_string()));
    assert_refusal(&outcome.response.unwrap(), 401);
    assert_eq!(outcome.action, Action::Continue);
    assert!(handler.token_claims().is_none());
}

const GET_POTATO: &str = "/scopes/my.potato.PotatoService/getPotato";

#[test]
fn scopes_of_the_method_are_asked_for() {
    let mut handler = potato(Some(&["read"]));
    assert_calls(
        run(&mut handler, &message(b"getPotato", b"\x00\x00\x00\x01"), false),
        GET_POTATO,
    );
    assert!(!handler.get_scopes_dispatched());
}

#[test]
fn scopes_are_asked_for_once() {
    let mut handler = potato(Some(&["read"]));
    let body = message(b"getPotato", b"");
    assert_calls(run(&mut handler, &body, false), GET_POTATO);
    assert_waits(handler.on_http_request_body(BodyEvent::ScopesDispatch(Ok(())), false));
    assert!(handler.get_scopes_dispatched());
    assert_waits(run(&mut handler, &body, false));
    assert_waits(run(&mut handler, &body, true));
    assert_waits(handler.on_http_request_body(
        BodyEvent::ScopesDispatch(Err("InternalFailure".to_string())),
        true,
    ));
    assert_waits(handler.on_http_request_body(BodyEvent::MethodLength(None), true));
    assert_waits(handler.on_http_request_body(BodyEvent::MethodName(0, Some(vec![])), true));
    assert!(handler.get_scopes_dispatched());
    assert_eq!(handler.token_claims().as_ref().unwrap().scopes, strings(&["read"]));
}

#[test]
fn failed_dispatch_is_answered_and_may_be_repeated() {
    let mut handler = potato(Some(&["read"]));
    let body = message(b"getPotato", b"");
    assert_calls(run(&mut handler, &body, false), GET_POTATO);
    assert_refused(
        handler.on_http_request_body(
            BodyEvent::ScopesDispatch(Err("InternalFailure".to_string())),
            false,
        ),
        Some("Failed to dispatch get scopes call: status InternalFailure"),
    );
    assert!(!handler.get_scopes_dispatched());
    assert_calls(run(&mut handler, &body, true), GET_POTATO);
    assert_waits(handler.on_http_request_body(BodyEvent::ScopesDispatch(Ok(())), true));
    assert!(handler.get_scopes_dispatched());
}

#[test]
fn dispatch_failure_names_the_status() {
    assert_eq!(
        dispatch_failure("BadArgument"),
        "Failed to dispatch get scopes call: status BadArgument"
    );
}

#[test]
fn events_out_of_turn_change_nothing() {
    let mut handler = potato(Some(&["read"]));
    assert_waits(handler.on_http_request_body(BodyEvent::ScopesDispatch(Ok(())), false));
    assert!(!handler.get_scopes_dispatched());
    assert_waits(handler.on_http_request_body(BodyEvent::MethodLength(Some(vec![0; 4])), true));
    assert_reads_length(handler.on_http_request_body(BodyEvent::Arrived, false));
    assert_waits(handler.on_http_request_body(
        BodyEvent::MethodName(1, Some(b"f".to_vec())),
        true,
    ));
    match handler.on_http_request_body(BodyEvent::MethodLength(Some(vec![0, 0, 0, 1])), false) {
        BodyStep::ReadMethodName { start, size } => assert_eq!((start, size), (8, 1)),
        other => panic!("{:?}", other),
    }
    assert_waits(handler.on_http_request_body(
        BodyEvent::MethodName(2, Some(b"fg".to_vec())),
        true,
    ));
    assert_calls(
        handler.on_http_request_body(BodyEvent::MethodName(1, Some(b"f".to_vec())), false),
        "/scopes/my.potato.PotatoService/f",
    );
}

#[test]
fn body_is_waited_for_until_its_end() {
    let whole = message(b"getPotato", b"");
    for arrived in 0..whole.len() {
        let mut handler = potato(Some(&["read"]));
        assert_waits(run(&mut handler, &whole[..arrived], false));
        assert_refused(run(&mut handler, &whole[..arrived], true), None);
    }
}

#[test]
fn unconfigured_filter_refuses_every_method() {
    let mut handler = handler(None, Some(&["read"]));
    assert_refused(
        run(&mut handler, &message(b"getPotato", b""), false),
        Some("Service name not found"),
    );
    assert_eq!(
        handler.dispatch_get_scopes("getPotato").unwrap_err(),
        "Service name not found"
    );
}

#[test]
fn first_read_is_of_the_length() {
    let mut handler = potato(None);
    assert_reads_length(handler.on_http_request_body(BodyEvent::Arrived, false));
    match handler.on_http_request_body(BodyEvent::MethodLength(Some(vec![0, 0, 1, 2])), false) {
        BodyStep::ReadMethodName { start, size } => assert_eq!((start, size), (8, 258)),
        other => panic!("{:?}", other),
    }
}

#[test]
fn covered_request_is_resumed() {
    for scopes in ["read", " write\tread \n", ""] {
        match potato(Some(&["read", "write"])).handle_get_scopes_res(required(scopes)) {
            ScopesOutcome::Resume => {}
            other => panic!("{:?}", other),
        }
    }
}

#[test]
fn uncovered_request_is_forbidden() {
    match potato(Some(&["read"])).handle_get_scopes_res(required("admin read \u{e9}\"x")) {
        ScopesOutcome::Refuse { error, response } => {
            assert_eq!(
                error.to_string(),
                "Unauthorized: Missing required scopes: [\"admin\", \"\u{e9}\\\"x\"]"
            );
            assert_refusal(&response, 403);
        }
        other => panic!("{:?}", other),
    }
}

#[test]
fn request_without_claims_is_unauthenticated() {
    for body in [None, required(""), required("read"), Some(Err("bad".to_string()))] {
        match potato(None).handle_get_scopes_res(body) {
            ScopesOutcome::Refuse { error, response } => {
                assert_eq!(error.to_string(), "Unauthenticated: Missing token claims");
                assert_refusal(&response, 401);
            }
            other => panic!("{:?}", other),
        }
    }
}

#[test]
fn request_without_answer_is_unauthenticated() {
    match potato(Some(&["read"])).handle_get_scopes_res(None) {
        ScopesOutcome::Refuse { error, response } => {
            assert_eq!(
                error.to_string(),
                "Unauthenticated: Empty body from scopes response"
            );
            assert_refusal(&response, 401);
        }
        other => panic!("{:?}", other),
    }
}

#[test]
fn unreadable_answer_is_unauthenticated() {
    match potato(Some(&["read"])).handle_get_scopes_res(Some(Err("missing field".to_string()))) {
        ScopesOutcome::Refuse { error, response } => {
            assert_eq!(error.to_string(), "Unauthenticated: missing field");
            assert_refusal(&response, 401);
        }
        other => panic!("{:?}", other),
    }
}

#[test]
fn missing_scopes_keep_their_order() {
    assert_eq!(
        find_missing(&strings(&["c", "a", "b", "c"]), &strings(&["a"])),
        strings(&["c", "b", "c"])
    );
    assert!(find_missing(&strings(&[]), &strings(&[])).is_empty());
}

#[test]
fn authorize_names_what_is_missing() {
    let handler = potato(None);
    assert_eq!(
        handler.authorize(strings(&["a", "b"]), &strings(&["b", "c", "a"])),
        Ok(())
    );
    assert_eq!(
        handler.authorize(strings(&["a", "b", "c"]), &strings(&["b"])),
        Err("Missing required scopes: [\"a\", \"c\"]".to_string())
    );
}

#[test]
fn annotations_are_found_locally() {
    let found = potato(None);
    let annotations = found.apply_thrift_auth_locally("mashPotato").unwrap();
    assert_eq!(annotations.get("scope"), Some(&"write all".to_string()));
    assert_eq!(annotations.get("role"), Some(&"chef".to_string()));
    assert_eq!(
        handler(None, None)
            .apply_thrift_auth_locally("mashPotato")
            .unwrap_err(),
        "Service name not found"
    );
    assert_eq!(
        handler(Some("my.tomato.TomatoService"), None)
            .apply_thrift_auth_locally("mashPotato")
            .unwrap_err(),
        "Scopes not found"
    );
}

#[test]
fn local_scope_is_required_as_a_whole() {
    assert!(potato(Some(&["read"]))
        .validate_auth_with_local_thrift("getPotato")
        .is_ok());
    assert!(potato(Some(&["write all"]))
        .validate_auth_with_local_thrift("mashPotato")
        .is_ok());
    match potato(Some(&["write", "all"])).validate_auth_with_local_thrift("mashPotato") {
        Err(AuthError::Unauthorized(message)) => {
            assert_eq!(message, "Missing required scopes: [\"write all\"]");
        }
        other => panic!("{:?}", other),
    }
    match potato(None).validate_auth_with_local_thrift("getPotato") {
        Err(AuthError::Unauthenticated(message)) => assert_eq!(message, "Missing token claims"),
        other => panic!("{:?}", other),
    }
}

#[test]
fn local_and_remote_verdicts_agree() {
    for scopes in [&["read"][..], &["write"][..]] {
        let local = potato(Some(scopes)).validate_auth_with_local_thrift("getPotato");
        let remote = potato(Some(scopes)).validate_auth(required("read"));
        assert_eq!(local.is_ok(), remote.is_ok());
    }
}

#[test]
fn more_scopes_never_hurt() {
    assert!(potato(Some(&["read"])).validate_auth(required("read")).is_ok());
    assert!(potato(Some(&["x", "read", "y"]))
        .validate_auth(required("read"))
        .is_ok());
}

#[test]
fn token_is_the_last_word_of_the_header() {
    let key = Some(vec![1, 2, 3]);
    assert_eq!(
        select_credentials(Some("Bearer abc.def.ghi".to_string()), key.clone()),
        Ok(("abc.def.ghi".to_string(), vec![1, 2, 3]))
    );
    assert_eq!(
        select_credentials(Some("abc ".to_string()), key.clone()),
        Ok(("abc".to_string(), vec![1, 2, 3]))
    );
}

#[test]
fn credentials_can_be_missing() {
    assert_eq!(
        select_credentials(None, None),
        Err(AuthenticationError::MissingHeader)
    );
    assert_eq!(
        select_credentials(Some(" \t".to_string()), None),
        Err(AuthenticationError::InvalidHeader)
    );
    assert_eq!(
        select_credentials(Some("Bearer x".to_string()), None),
        Err(AuthenticationError::MissingKey)
    );
    assert_eq!(
        AuthenticationError::MissingHeader.to_string(),
        "Missing Authorization Header"
    );
    assert_eq!(
        AuthenticationError::InvalidHeader.to_string(),
        "Invalid Auth Header"
    );
    assert_eq!(
        AuthenticationError::MissingKey.to_string(),
        "Public key not found in cache"
    );
    assert_eq!(
        AuthenticationError::BadKey("Invalid public key".to_string()).to_string(),
        "Invalid public key"
    );
    assert_eq!(
        AuthenticationError::BadToken("Token has expired".to_string()).to_string(),
        "Token has expired"
    );
}
