//! The key that tokens are checked with: where it comes from and how it is used.

use base64::prelude::{Engine, BASE64_URL_SAFE_NO_PAD};
use jwt_simple::prelude::{NoCustomClaims, RS256PublicKey, RSAPublicKeyLike};
use vstd::prelude::*;

verus! {

/// A set of keys, as the issuer publishes it.
#[derive(Debug)]
pub struct Jwks {
    pub keys: Vec<Jwk>,
}

/// A published key: its algorithm, its modulus and its exponent, the latter two
/// in the URL-safe base64 alphabet.
#[derive(Debug)]
pub struct Jwk {
    pub alg: String,
    pub n: String,
    pub e: String,
}

/// What is to be done about the cached key after an answer of the issuer.
#[derive(Debug)]
pub enum KeyUpdate {
    /// Nothing: the answer holds no key that can be used.
    Keep,
    /// The answer offers a key that is not well formed.
    Malformed,
    /// This key, in DER, is to be cached.
    Store(Vec<u8>),
}

/// The errors of base64 decoding.
#[verifier::external_type_specification]
#[verifier::external_body]
pub struct ExDecodeError(base64::DecodeError);

/// The errors of key and token handling.
#[verifier::external_type_specification]
#[verifier::external_body]
pub struct ExJwtError(jwt_simple::Error);

/// What `BASE64_URL_SAFE_NO_PAD.decode` makes of a text: the bytes, if it
/// accepts the text.
pub uninterp spec fn base64_url_decode(text: Seq<char>) -> Option<Seq<u8>>;

/// The public key with a modulus and an exponent, both big-endian, in DER, if
/// `RS256PublicKey::from_components` and `RS256PublicKey::to_der` accept them.
pub uninterp spec fn rs256_public_key_der(n: Seq<u8>, e: Seq<u8>) -> Option<Seq<u8>>;

/// Whether `RS256PublicKey::from_der` accepts some bytes as a public key.
pub uninterp spec fn rs256_key_readable(der: Seq<u8>) -> bool;

/// What `RSAPublicKeyLike::verify_token` finds under a public key in DER, the
/// comparison of the token's times with the clock left aside. For a token that
/// passes every other check: whether it states when it was issued, when it becomes
/// valid, and when it expires. For any other token: the text of the error.
pub uninterp spec fn rs256_token_check(key: Seq<u8>, token: Seq<char>) -> Result<
    (bool, bool, bool),
    Seq<char>,
>;

/// A text that the clock can lead to, for a token that states when it was issued,
/// when it becomes valid and when it expires, or not.
pub open spec fn clock_reason(times: (bool, bool, bool), reason: Seq<char>) -> bool {
    ||| times.0 && reason == "Clock drift detected"@
    ||| times.1 && reason == "Token not valid yet"@
    ||| times.2 && reason == "Token has expired"@
}

/// What can come of the check of a token, as far as the clock does not decide it:
/// why the check fails, or nothing if it does not.
///
/// Without a key that can be read no token is accepted, and a token that does not
/// pass the other checks is refused for that. One that does is accepted; only if it
/// states times may it be refused instead, because of one of these.
pub open spec fn token_outcome(
    readable: bool,
    verified: Result<(bool, bool, bool), Seq<char>>,
    failure: Option<crate::auth::AuthenticationErrorModel>,
) -> bool {
    if !readable {
        failure == Some(crate::auth::AuthenticationErrorModel::BadKey("Invalid public key"@))
    } else {
        match verified {
            Err(reason) => failure == Some(
                crate::auth::AuthenticationErrorModel::BadToken(reason),
            ),
            Ok(times) => match failure {
                None => true,
                Some(crate::auth::AuthenticationErrorModel::BadToken(reason)) => clock_reason(
                    times,
                    reason,
                ),
                Some(_) => false,
            },
        }
    }
}

/// Calls `base64::Engine::decode` of `BASE64_URL_SAFE_NO_PAD`.
///
/// Taken on trust: whether the text is accepted, and the bytes, are a function
/// of the text alone.
#[verifier::external_body]
pub(crate) fn decode_base64_url(text: &str) -> (decoded: Result<Vec<u8>, base64::DecodeError>)
    ensures
        match decoded {
            Ok(bytes) => base64_url_decode(text@) == Some(bytes@),
            Err(_) => base64_url_decode(text@) is None,
        },
{
    BASE64_URL_SAFE_NO_PAD.decode(text.as_bytes())
}

/// Calls `RS256PublicKey::from_components`, and `RS256PublicKey::to_der` on the
/// key that this gives.
///
/// Taken on trust: whether the two accept the key, and the bytes, are a function
/// of the modulus and the exponent alone; and `RS256PublicKey::from_der` accepts
/// the bytes.
#[verifier::external_body]
pub(crate) fn public_key_der(n: &Vec<u8>, e: &Vec<u8>) -> (der: Result<Vec<u8>, jwt_simple::Error>)
    ensures
        match der {
            Ok(bytes) => rs256_public_key_der(n@, e@) == Some(bytes@),
            Err(_) => rs256_public_key_der(n@, e@) is None,
        },
        der matches Ok(bytes) ==> rs256_key_readable(bytes@),
{
    RS256PublicKey::from_components(n, e)?.to_der()
}

/// Calls `RS256PublicKey::from_der`, and `RSAPublicKeyLike::verify_token` of the
/// key that this gives, with the default options. An error comes as its text: the
/// outer one from the first call, the inner one from the second.
///
/// Taken on trust: whether the key can be read is a function of its bytes, and
/// where it cannot, the text is always the same. Which token passes the checks that
/// are not on its times is a function of the key and the token alone. So are the
/// text of an error that does not come from the token's times, and which of the
/// three errors that do can come at all. The claims of a token that is accepted
/// stand in its second part, which `BASE64_URL_SAFE_NO_PAD.decode` accepts. Nothing
/// is said of when one of the three errors comes: this depends on the clock.
#[verifier::external_body]
pub(crate) fn verify_token(key: &Vec<u8>, token: &str) -> (checked: Result<
    Result<(), String>,
    String,
>)
    ensures
        token_outcome(
            rs256_key_readable(key@),
            rs256_token_check(key@, token@),
            crate::auth::check_failure(checked),
        ),
        checked matches Ok(Ok(_)) ==> base64_url_decode(
            crate::auth::claims_part(token@),
        ) is Some,
{
    match RS256PublicKey::from_der(key) {
        Err(error) => Err(error.to_string()),
        Ok(public_key) => match public_key.verify_token::<NoCustomClaims>(token, None) {
            Err(error) => Ok(Err(error.to_string())),
            Ok(_) => Ok(Ok(())),
        },
    }
}

/// The first key of a set that is for RS256.
pub open spec fn first_rs256(keys: Seq<Jwk>) -> Option<Jwk>
    decreases keys.len(),
{
    if keys.len() == 0 {
        None
    } else if keys[0].alg@ == "RS256"@ {
        Some(keys[0])
    } else {
        first_rs256(keys.skip(1))
    }
}

/// Finds the first key of a set that is for RS256.
pub fn select_key(jwks: &Jwks) -> (found: Option<&Jwk>)
    ensures
        match found {
            Some(key) => first_rs256(jwks.keys@) == Some(*key),
            None => first_rs256(jwks.keys@) is None,
        },
        match found {
            Some(key) => exists|i: int|
                {
                    &&& 0 <= i < jwks.keys@.len()
                    &&& #[trigger] jwks.keys@[i] == *key
                    &&& key.alg@ == "RS256"@
                    &&& forall|j: int| 0 <= j < i ==> (#[trigger] jwks.keys@[j]).alg@ != "RS256"@
                },
            None => forall|i: int|
                0 <= i < jwks.keys@.len() ==> (#[trigger] jwks.keys@[i]).alg@ != "RS256"@,
        },
{
    let wanted: String = "RS256".to_owned();
    let mut i: usize = 0;
    assert(jwks.keys@.skip(0) =~= jwks.keys@);
    while i < jwks.keys.len()
        invariant
            i <= jwks.keys@.len(),
            wanted@ == "RS256"@,
            first_rs256(jwks.keys@) == first_rs256(jwks.keys@.skip(i as int)),
            forall|j: int| 0 <= j < i ==> (#[trigger] jwks.keys@[j]).alg@ != "RS256"@,
        decreases jwks.keys@.len() - i,
    {
        if jwks.keys[i].alg == wanted {
            return Some(&jwks.keys[i]);
        }
        assert(jwks.keys@.skip(i as int).skip(1) =~= jwks.keys@.skip(i + 1));
        i = i + 1;
    }
    None
}

/// A published key in DER, if it is well formed.
pub open spec fn key_der(key: Jwk) -> Option<Seq<u8>> {
    match (base64_url_decode(key.n@), base64_url_decode(key.e@)) {
        (Some(n), Some(e)) => rs256_public_key_der(n, e),
        _ => None,
    }
}

/// Puts a published key into DER, from which it can be read again. Gives nothing
/// if the key is not well formed.
pub fn encode_key(key: &Jwk) -> (der: Option<Vec<u8>>)
    ensures
        match der {
            Some(bytes) => key_der(*key) == Some(bytes@),
            None => key_der(*key) is None,
        },
        der matches Some(bytes) ==> rs256_key_readable(bytes@),
        match (base64_url_decode(key.n@), base64_url_decode(key.e@)) {
            (Some(n), Some(e)) => match rs256_public_key_der(n, e) {
                Some(expected) => der is Some && der->Some_0@ == expected,
                None => der is None,
            },
            _ => der is None,
        },
{
    match (decode_base64_url(key.n.as_str()), decode_base64_url(key.e.as_str())) {
        (Ok(n), Ok(e)) => match public_key_der(&n, &e) {
            Ok(der) => Some(der),
            Err(_) => None,
        },
        _ => None,
    }
}

/// A token that verifies and states no times is accepted under a key that can be
/// read, whatever the clock says.
pub proof fn law_timeless_token_is_accepted(
    failure: Option<crate::auth::AuthenticationErrorModel>,
)
    ensures
        token_outcome(true, Ok((false, false, false)), failure) <==> failure is None,
{
}

/// Where the key can be read, a token that is refused is refused for what is wrong
/// with the token.
pub proof fn law_readable_key_is_not_blamed(
    verified: Result<(bool, bool, bool), Seq<char>>,
    failure: Option<crate::auth::AuthenticationErrorModel>,
)
    requires
        token_outcome(true, verified, failure),
    ensures
        failure matches Some(error) ==> error is BadToken,
{
}

/// No token is accepted that does not verify, nor without a key that can be read.
pub proof fn law_accepted_token_verifies(
    readable: bool,
    verified: Result<(bool, bool, bool), Seq<char>>,
)
    requires
        token_outcome(readable, verified, None),
    ensures
        readable,
        verified is Ok,
{
}

/// Of the keys in a set none but the first for RS256 is ever used: keys for
/// other algorithms in front of it change nothing, nor do any keys behind it.
pub proof fn law_first_rs256_counts(front: Seq<Jwk>, key: Jwk, behind: Seq<Jwk>)
    requires
        forall|i: int| 0 <= i < front.len() ==> (#[trigger] front[i]).alg@ != "RS256"@,
        key.alg@ == "RS256"@,
    ensures
        first_rs256(front.push(key) + behind) == Some(key),
    decreases front.len(),
{
    let keys = front.push(key) + behind;
    if front.len() > 0 {
        assert(keys[0] == front[0]);
        assert(keys.skip(1) =~= front.skip(1).push(key) + behind);
        law_first_rs256_counts(front.skip(1), key, behind);
    } else {
        assert(keys[0] == key);
    }
}

/// A set has no key that can be used exactly if none of its keys is for RS256.
pub proof fn law_no_rs256(keys: Seq<Jwk>)
    ensures
        first_rs256(keys) is None <==> forall|i: int|
            0 <= i < keys.len() ==> (#[trigger] keys[i]).alg@ != "RS256"@,
    decreases keys.len(),
{
    if keys.len() > 0 {
        let rest = keys.skip(1);
        law_no_rs256(rest);
        if keys[0].alg@ != "RS256"@ {
            if forall|i: int| 0 <= i < rest.len() ==> (#[trigger] rest[i]).alg@ != "RS256"@ {
                assert forall|i: int| 0 <= i < keys.len() implies (#[trigger] keys[i]).alg@
                    != "RS256"@ by {
                    if i > 0 {
                        assert(rest[i - 1] == keys[i]);
                    }
                }
            } else {
                let i = choose|i: int| 0 <= i < rest.len() && (#[trigger] rest[i]).alg@ == "RS256"@;
                assert(keys[i + 1] == rest[i]);
            }
        }
    }
}

/// A published key whose modulus and exponent decode is what comes of these two in
/// DER, however long they are, and nothing if nothing comes of them.
pub proof fn law_decoded_key_is_put_into_der(key: Jwk, n: Seq<u8>, e: Seq<u8>)
    requires
        base64_url_decode(key.n@) == Some(n),
        base64_url_decode(key.e@) == Some(e),
    ensures
        key_der(key) == rs256_public_key_der(n, e),
{
}

/// Nothing comes of a published key whose modulus or exponent does not decode.
pub proof fn law_undecoded_key_is_no_key(key: Jwk)
    requires
        base64_url_decode(key.n@) is None || base64_url_decode(key.e@) is None,
    ensures
        key_der(key) is None,
{
}

/// Without a key that can be read, each check fails in one and the same way.
pub proof fn law_unreadable_key_is_blamed(
    verified: Result<(bool, bool, bool), Seq<char>>,
    failure: Option<crate::auth::AuthenticationErrorModel>,
)
    ensures
        token_outcome(false, verified, failure) <==> failure == Some(
            crate::auth::AuthenticationErrorModel::BadKey("Invalid public key"@),
        ),
{
}

/// A token that does not verify under a key is refused, and for just that reason.
pub proof fn law_reason_is_handed_on(
    reason: Seq<char>,
    failure: Option<crate::auth::AuthenticationErrorModel>,
)
    ensures
        token_outcome(true, Err(reason), failure) <==> failure == Some(
            crate::auth::AuthenticationErrorModel::BadToken(reason),
        ),
{
}

/// A token that verifies can be refused only because of a time that it states, with
/// the reason that belongs to this time.
pub proof fn law_only_stated_times_refuse(
    issued: bool,
    not_before: bool,
    expires: bool,
    failure: Option<crate::auth::AuthenticationErrorModel>,
)
    ensures
        token_outcome(true, Ok((issued, not_before, expires)), failure) <==> ({
            ||| failure is None
            ||| issued && failure == Some(
                crate::auth::AuthenticationErrorModel::BadToken("Clock drift detected"@),
            )
            ||| not_before && failure == Some(
                crate::auth::AuthenticationErrorModel::BadToken("Token not valid yet"@),
            )
            ||| expires && failure == Some(
                crate::auth::AuthenticationErrorModel::BadToken("Token has expired"@),
            )
        }),
{
}

} // verus!
