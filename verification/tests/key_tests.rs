use base64::prelude::{Engine, BASE64_URL_SAFE_NO_PAD};
use jwt_simple::prelude::{Claims, Duration, RS256KeyPair, RSAKeyPairLike, UnixTimeStamp};
use serde::ser::{Serialize, SerializeMap, Serializer};
use std::collections::BTreeMap;
use thrift_scope_filter::auth::{conclude_check, find_claims_part, AuthenticationError};
use thrift_scope_filter::handler::HttpHandler;
use thrift_scope_filter::keys::{encode_key, select_key, Jwk, Jwks, KeyUpdate};
use thrift_scope_filter::root::{FilterConfig, RootHandler};

fn jwk(alg: &str, n: &str, e: &str) -> Jwk {
    Jwk {
        alg: alg.to_string(),
        n: n.to_string(),
        e: e.to_string(),
    }
}

fn handler() -> HttpHandler {
    RootHandler::default()
        .create_http_context("namespace go a".to_string())
        .unwrap()
}

// The smallest key that is accepted: modulus 15, exponent 3.
const SMALL_KEY_DER: [u8; 28] = [
    0x30, 0x1a, 0x30, 0x0d, 0x06, 0x09, 0x2a, 0x86, 0x48, 0x86, 0xf7, 0x0d, 0x01, 0x01, 0x01, 0x05,
    0x00, 0x03, 0x09, 0x00, 0x30, 0x06, 0x02, 0x01, 0x0f, 0x02, 0x01, 0x03,
];

// A key pair of 512 bits, made for these tests, in DER.
const ISSUER_DER: [u8; 318] = [
    0x30, 0x82, 0x01, 0x3a, 0x02, 0x01, 0x00, 0x02, 0x41, 0x00, 0xa4, 0xcb, 0xb7, 0x0f, 0x50, 0x8d,
    0x3d, 0xf7, 0xdf, 0xd2, 0x64, 0x2c, 0x9b, 0x67, 0xaf, 0xd8, 0xaa, 0x4e, 0x23, 0xb3, 0x4c, 0x79,
    0xc8, 0x17, 0xf7, 0xae, 0x6b, 0x35, 0x8b, 0x8e, 0xb4, 0x33, 0x0b, 0x7f, 0xaf, 0xb2, 0x80, 0x6c,
    0x29, 0xeb, 0x58, 0x9a, 0x85, 0xb0, 0x4e, 0x59, 0x7a, 0x15, 0x81, 0x90, 0x8e, 0xeb, 0x94, 0x66,
    0x22, 0x24, 0x28, 0x8a, 0xe8, 0xff, 0x2d, 0xa7, 0x33, 0x09, 0x02, 0x03, 0x01, 0x00, 0x01, 0x02,
    0x40, 0x32, 0x0a, 0xbe, 0x6b, 0x03, 0x1d, 0xf0, 0xcc, 0x5d, 0x86, 0x28, 0xef, 0x36, 0xbd, 0xb4,
    0xb3, 0x49, 0x7b, 0xf2, 0xf1, 0x56, 0x6e, 0xc0, 0xa9, 0x2e, 0x88, 0x23, 0x7c, 0x1e, 0x05, 0xd6,
    0x88, 0x10, 0x9a, 0xac, 0x87, 0xb7, 0xf3, 0x95, 0xc1, 0xb1, 0x0b, 0xd7, 0xa4, 0x89, 0x7f, 0xe0,
    0x84, 0x04, 0xd0, 0x1b, 0xc6, 0x76, 0x6e, 0x56, 0xe5, 0x8e, 0xf3, 0x03, 0x88, 0x0f, 0xd7, 0xf0,
    0x81, 0x02, 0x21, 0x00, 0xdb, 0x39, 0xc8, 0x16, 0xdc, 0xf7, 0x90, 0x60, 0xa8, 0x16, 0xfa, 0x00,
    0x67, 0x50, 0x51, 0xf7, 0x5c, 0x1c, 0xba, 0x00, 0xca, 0x1b, 0xff, 0xf2, 0xfc, 0xd1, 0x09, 0x9e,
    0x5e, 0xc2, 0x86, 0x71, 0x02, 0x21, 0x00, 0xc0, 0x70, 0x8b, 0xcb, 0x7c, 0x34, 0x59, 0x76, 0xd7,
    0xe8, 0x8e, 0x23, 0xa2, 0x98, 0x7f, 0x17, 0x24, 0xec, 0x65, 0x36, 0xea, 0x2e, 0x61, 0xe4, 0xf1,
    0x51, 0x4f, 0x78, 0xa3, 0xc6, 0x32, 0x19, 0x02, 0x20, 0x61, 0x76, 0x3e, 0xce, 0x6b, 0x4e, 0x64,
    0x91, 0x94, 0x29, 0x22, 0xdc, 0x2b, 0x12, 0x3a, 0x5e, 0x8e, 0x44, 0xf7, 0x2c, 0x82, 0xae, 0x10,
    0x0c, 0x26, 0xf9, 0x88, 0x1d, 0x30, 0x63, 0xab, 0x01, 0x02, 0x21, 0x00, 0xa7, 0xcb, 0x7a, 0x99,
    0x5b, 0x1b, 0x6a, 0x46, 0xad, 0xcc, 0x20, 0xe4, 0x01, 0x8a, 0x66, 0x86, 0x8f, 0xb3, 0x70, 0x2d,
    0x89, 0xd4, 0x17, 0x97, 0xc0, 0xb2, 0xdd, 0x50, 0x9b, 0xbc, 0xdd, 0x41, 0x02, 0x20, 0x38, 0x97,
    0x43, 0x47, 0x67, 0x2a, 0x2a, 0x5a, 0x4c, 0x98, 0x5c, 0xe1, 0x2a, 0x33, 0xde, 0xfd, 0xfc, 0xb2,
    0x5b, 0xaf, 0x97, 0x48, 0xa7, 0xc4, 0x63, 0xac, 0x27, 0x53, 0x72, 0xfe, 0x75, 0xa8,
];

fn issuer() -> RS256KeyPair {
    RS256KeyPair::from_der(&ISSUER_DER).unwrap()
}

#[test]
fn first_key_for_rs256_is_selected() {
    let jwks = Jwks {
        keys: vec![
            jwk("ES256", "a", "b"),
            jwk("RS256", "c", "d"),
            jwk("RS256", "e", "f"),
        ],
    };
    let key = select_key(&jwks).unwrap();
    assert_eq!((key.n.as_str(), key.e.as_str()), ("c", "d"));
}

#[test]
fn other_algorithms_are_not_selected() {
    let jwks = Jwks {
        keys: vec![jwk("ES256", "a", "b"), jwk("rs256", "c", "d")],
    };
    assert!(select_key(&jwks).is_none());
    assert!(select_key(&Jwks { keys: vec![] }).is_none());
    match RootHandler::default().handle_get_token_res(Ok(jwks)) {
        KeyUpdate::Keep => {}
        other => panic!("{:?}", other),
    }
}

#[test]
fn key_is_put_into_der() {
    assert_eq!(
        encode_key(&jwk("RS256", "Dw", "Aw")),
        Some(SMALL_KEY_DER.to_vec())
    );
}

#[test]
fn key_is_cached() {
    let jwks = Jwks {
        keys: vec![jwk("RS256", "Dw", "Aw")],
    };
    match RootHandler::default().on_http_call_response(Some(Ok(jwks))) {
        KeyUpdate::Store(der) => assert_eq!(der, SMALL_KEY_DER.to_vec()),
        other => panic!("{:?}", other),
    }
}

#[test]
fn malformed_keys_are_reported() {
    for (n, e) in [
        ("Dw==", "Aw"),
        ("Dw", "A+"),
        ("Dx", "Aw"),
        ("", ""),
        ("Dg", "Aw"),
        ("Dw", "Ag"),
    ] {
        assert_eq!(encode_key(&jwk("RS256", n, e)), None, "{} {}", n, e);
        let jwks = Jwks {
            keys: vec![jwk("RS256", n, e), jwk("RS256", "Dw", "Aw")],
        };
        match RootHandler::default().handle_get_token_res(Ok(jwks)) {
            KeyUpdate::Malformed => {}
            other => panic!("{:?}", other),
        }
    }
}

#[test]
fn answers_without_keys_change_nothing() {
    let root = RootHandler::default();
    match root.on_http_call_response(None) {
        KeyUpdate::Keep => {}
        other => panic!("{:?}", other),
    }
    match root.on_http_call_response(Some(Err("not JSON".to_string()))) {
        KeyUpdate::Keep => {}
        other => panic!("{:?}", other),
    }
}

#[test]
fn key_is_fetched_until_it_is_cached() {
    let root = RootHandler::default();
    let call = root.on_tick(&None).unwrap();
    assert_eq!(call.upstream, "auth");
    assert_eq!(
        call.headers,
        vec![
            (":method".to_string(), "GET".to_string()),
            (":path".to_string(), "/.well-known/jwks.json".to_string()),
            (":authority".to_string(), "auth".to_string()),
        ]
    );
    assert_eq!(call.body, None);
    assert_eq!(call.timeout_secs, 1);
    assert!(root.on_tick(&Some(vec![])).is_none());
}

#[test]
fn configuration_is_taken_over() {
    let mut root = RootHandler::default();
    assert_eq!(root.config.service_name, None);
    let config = FilterConfig {
        service_name: Some("a.S".to_string()),
    };
    assert_eq!(root.on_configure(Some(Ok(config))), Some(3));
    assert_eq!(root.config.service_name, Some("a.S".to_string()));
    assert_eq!(root.on_configure(None), None);
    assert_eq!(root.on_configure(Some(Err("not JSON".to_string()))), None);
    assert_eq!(root.config.service_name, Some("a.S".to_string()));
    assert_eq!(root.clone().config.service_name, Some("a.S".to_string()));
}

#[test]
fn token_needs_a_header_and_a_key() {
    let handler = handler();
    assert_eq!(
        handler.authenticate(None, Some(SMALL_KEY_DER.to_vec())),
        Err(AuthenticationError::MissingHeader)
    );
    assert_eq!(
        handler.authenticate(Some("".to_string()), Some(SMALL_KEY_DER.to_vec())),
        Err(AuthenticationError::InvalidHeader)
    );
    assert_eq!(
        handler.authenticate(Some("Bearer x".to_string()), None),
        Err(AuthenticationError::MissingKey)
    );
}

fn bad_key(reason: &str) -> Result<Vec<u8>, AuthenticationError> {
    Err(AuthenticationError::BadKey(reason.to_string()))
}

fn bad_token(reason: &str) -> Result<Vec<u8>, AuthenticationError> {
    Err(AuthenticationError::BadToken(reason.to_string()))
}

fn timeless_token(issuer: &RS256KeyPair) -> String {
    let mut custom: BTreeMap<String, Vec<String>> = BTreeMap::new();
    custom.insert("scopes".to_string(), vec![]);
    let mut claims = Claims::with_custom_claims(custom, Duration::from_secs(1));
    claims.issued_at = None;
    claims.invalid_before = None;
    claims.expires_at = None;
    issuer.sign(claims).unwrap()
}

#[test]
fn unreadable_keys_are_named() {
    for key in [vec![], vec![1, 2, 3], SMALL_KEY_DER[..27].to_vec()] {
        assert_eq!(
            handler().authenticate(Some("Bearer x".to_string()), Some(key)),
            bad_key("Invalid public key")
        );
    }
}

#[test]
fn reason_for_a_bad_token_is_kept() {
    for (token, reason) in [
        ("x", "JWT compact encoding error"),
        ("Bearer", "JWT compact encoding error"),
        ("a.b.c.d", "JWT compact encoding error"),
        // {"alg":"HS256","typ":"JWT"}
        ("eyJhbGciOiJIUzI1NiIsInR5cCI6IkpXVCJ9.e30.e30", "JWT algorithm mismatch"),
        // {"alg":"RS256","typ":"JWT"}
        ("eyJhbGciOiJSUzI1NiIsInR5cCI6IkpXVCJ9.e30.e30", "Signature tag didn't verify"),
    ] {
        assert_eq!(
            handler().authenticate(Some(token.to_string()), Some(SMALL_KEY_DER.to_vec())),
            bad_token(reason),
            "{}",
            token
        );
    }
}

#[test]
fn check_is_concluded_from_its_answers() {
    assert_eq!(
        conclude_check(Err("no key".to_string())),
        Some(AuthenticationError::BadKey("no key".to_string()))
    );
    assert_eq!(
        conclude_check(Ok(Err("no token".to_string()))),
        Some(AuthenticationError::BadToken("no token".to_string()))
    );
    assert_eq!(conclude_check(Ok(Ok(()))), None);
}

#[test]
fn claims_stand_in_the_middle_of_a_token() {
    assert_eq!(find_claims_part("head.claims.sign"), "claims");
    assert_eq!(find_claims_part("\u{e9}.\u{4e2d}.x.y"), "\u{4e2d}");
    assert_eq!(find_claims_part("head.claims"), "claims");
    assert_eq!(find_claims_part("head."), "");
    assert_eq!(find_claims_part("head"), "");
    assert_eq!(find_claims_part("..x"), "");
    assert_eq!(find_claims_part(""), "");
}

struct Repeated;

impl Serialize for Repeated {
    fn serialize<S: Serializer>(&self, serializer: S) -> Result<S::Ok, S::Error> {
        let mut map = serializer.serialize_map(None)?;
        map.serialize_entry("scopes", &["read"])?;
        map.serialize_entry("scopes", &["write"])?;
        map.end()
    }
}

#[test]
fn claims_come_as_the_token_states_them() {
    let issuer = issuer();
    let key = issuer.public_key().to_der().unwrap();
    let mut claims = Claims::with_custom_claims(Repeated, Duration::from_secs(1));
    claims.issued_at = None;
    claims.invalid_before = None;
    claims.expires_at = None;
    let token = issuer.sign(claims).unwrap();
    assert_eq!(
        handler().authenticate(Some(token), Some(key)),
        Ok(b"{\"scopes\":[\"read\"],\"scopes\":[\"write\"]}".to_vec())
    );
}

#[test]
fn signed_token_gives_its_claims() {
    let issuer = issuer();
    let components = issuer.public_key().to_components();
    let jwks = Jwks {
        keys: vec![jwk(
            "RS256",
            &BASE64_URL_SAFE_NO_PAD.encode(components.n),
            &BASE64_URL_SAFE_NO_PAD.encode(components.e),
        )],
    };
    let key = match RootHandler::default().handle_get_token_res(Ok(jwks)) {
        KeyUpdate::Store(der) => der,
        other => panic!("{:?}", other),
    };

    let mut custom: BTreeMap<String, Vec<String>> = BTreeMap::new();
    custom.insert("scopes".to_string(), vec!["read".to_string()]);
    let claims = Claims::with_custom_claims(custom, Duration::from_secs(3600));
    let token = issuer.sign(claims).unwrap();

    let stated = handler()
        .authenticate(Some(format!("Bearer {}", token)), Some(key.clone()))
        .unwrap();
    let stated: serde_json::Value = serde_json::from_slice(&stated).unwrap();
    assert_eq!(stated["scopes"][0], "read");
    assert_eq!(stated["scopes"].as_array().unwrap().len(), 1);
    assert!(stated["exp"].is_number());
    let (signed, _) = token.rsplit_once('.').unwrap();
    let other = timeless_token(&issuer);
    let (_, other_signature) = other.rsplit_once('.').unwrap();
    assert_eq!(
        handler().authenticate(Some(format!("Bearer {}.{}", signed, other_signature)), Some(key)),
        bad_token("Signature tag didn't verify")
    );
    assert_eq!(
        handler().authenticate(Some(format!("Bearer {}", token)), Some(SMALL_KEY_DER.to_vec())),
        bad_token("Signature tag didn't verify")
    );
}

#[test]
fn token_without_times_is_accepted() {
    let issuer = issuer();
    let key = issuer.public_key().to_der().unwrap();
    assert_eq!(
        handler().authenticate(Some(timeless_token(&issuer)), Some(key)),
        Ok(b"{\"scopes\":[]}".to_vec())
    );
}

#[test]
fn times_are_held_against_the_clock() {
    let issuer = issuer();
    let key = issuer.public_key().to_der().unwrap();
    let custom: BTreeMap<String, Vec<String>> = BTreeMap::new();
    let far = UnixTimeStamp::from_secs(4_000_000_000);

    let mut expired = Claims::with_custom_claims(custom.clone(), Duration::from_secs(1));
    expired.expires_at = Some(UnixTimeStamp::from_secs(1));
    assert_eq!(
        handler().authenticate(Some(issuer.sign(expired).unwrap()), Some(key.clone())),
        bad_token("Token has expired")
    );

    let mut early = Claims::with_custom_claims(custom.clone(), Duration::from_secs(1));
    early.invalid_before = Some(far);
    assert_eq!(
        handler().authenticate(Some(issuer.sign(early).unwrap()), Some(key.clone())),
        bad_token("Token not valid yet")
    );

    let mut drifted = Claims::with_custom_claims(custom, Duration::from_secs(1));
    drifted.issued_at = Some(far);
    assert_eq!(
        handler().authenticate(Some(issuer.sign(drifted).unwrap()), Some(key)),
        bad_token("Clock drift detected")
    );
}
