//! Who may call a method: the scopes that are asked for, the scopes that a token
//! gives, and the credentials that a request comes with.

use crate::text::split_whitespace;
use vstd::prelude::*;

verus! {

/// The claims of a token that the filter uses.
#[derive(Debug)]
pub struct CustomClaims {
    pub scopes: Vec<String>,
}

/// The upstream's answer to which scopes a method asks for.
#[derive(Debug)]
pub struct GetScopesResponse {
    /// The scopes, with white space between them.
    pub scopes: String,
}

/// Why a request is not let through.
#[derive(Debug)]
pub enum AuthError {
    /// It is not known who makes the request, or what the request asks for.
    Unauthenticated(String),
    /// Who makes the request lacks a scope that it asks for.
    Unauthorized(String),
}

/// The model of why a request is not let through.
pub enum AuthErrorModel {
    Unauthenticated(Seq<char>),
    Unauthorized(Seq<char>),
}

impl View for AuthError {
    type V = AuthErrorModel;

    open spec fn view(&self) -> AuthErrorModel {
        match self {
            AuthError::Unauthenticated(message) => AuthErrorModel::Unauthenticated(message@),
            AuthError::Unauthorized(message) => AuthErrorModel::Unauthorized(message@),
        }
    }
}

impl AuthError {
    /// The error in words.
    pub fn to_string(&self) -> (text: String)
        ensures
            text@ == match self@ {
                AuthErrorModel::Unauthenticated(message) => "Unauthenticated: "@ + message,
                AuthErrorModel::Unauthorized(message) => "Unauthorized: "@ + message,
            },
            text@ == match self {
                AuthError::Unauthenticated(message) => "Unauthenticated: "@ + message@,
                AuthError::Unauthorized(message) => "Unauthorized: "@ + message@,
            },
    {
        let (kind, message): (&str, &String) = match self {
            AuthError::Unauthenticated(message) => ("Unauthenticated: ", message),
            AuthError::Unauthorized(message) => ("Unauthorized: ", message),
        };
        let mut text: String = kind.to_owned();
        text.append(message.as_str());
        text
    }
}

// ---------------------------------------------------------------------------
// Scopes
// ---------------------------------------------------------------------------
/// The required scopes that are not among the provided ones, in order.
pub open spec fn missing_scopes(required: Seq<Seq<char>>, provided: Seq<Seq<char>>) -> Seq<
    Seq<char>,
>
    decreases required.len(),
{
    if required.len() == 0 {
        Seq::empty()
    } else {
        let before = missing_scopes(required.drop_last(), provided);
        if provided.contains(required.last()) {
            before
        } else {
            before.push(required.last())
        }
    }
}

/// How `{:?}` writes a list of strings.
pub uninterp spec fn debug_text(items: Seq<Seq<char>>) -> Seq<char>;

/// Calls `std::fmt::Debug` of a vector of strings, by `format!("{:?}")`.
///
/// Taken on trust: the text is a function of the contents of the strings.
#[verifier::external_body]
pub(crate) fn debug_list(items: &Vec<String>) -> (text: String)
    ensures
        text@ == debug_text(crate::text::contents(items@)),
{
    format!("{:?}", items)
}

/// What is said of missing scopes.
pub open spec fn missing_message(missing: Seq<Seq<char>>) -> Seq<char> {
    "Missing required scopes: "@ + debug_text(missing)
}

/// Whether a string is in a list.
fn holds(list: &Vec<String>, wanted: &String) -> (found: bool)
    ensures
        found == crate::text::contents(list@).contains(wanted@),
{
    let mut i: usize = 0;
    while i < list.len()
        invariant
            i <= list@.len(),
            forall|k: int| 0 <= k < i ==> (#[trigger] crate::text::contents(list@)[k]) != wanted@,
        decreases list@.len() - i,
    {
        if list[i] == *wanted {
            assert(crate::text::contents(list@)[i as int] == wanted@);
            return true;
        }
        i = i + 1;
    }
    false
}

/// Finds the required scopes that are not among the provided ones.
pub fn find_missing(required: &Vec<String>, provided: &Vec<String>) -> (missing: Vec<String>)
    ensures
        crate::text::contents(missing@) == missing_scopes(
            crate::text::contents(required@),
            crate::text::contents(provided@),
        ),
{
    let ghost asked = crate::text::contents(required@);
    let ghost given = crate::text::contents(provided@);
    let mut missing: Vec<String> = Vec::new();
    let mut i: usize = 0;
    assert(crate::text::contents(missing@) =~= missing_scopes(asked.take(0), given));
    while i < required.len()
        invariant
            i <= required@.len(),
            asked == crate::text::contents(required@),
            given == crate::text::contents(provided@),
            crate::text::contents(missing@) == missing_scopes(asked.take(i as int), given),
        decreases required@.len() - i,
    {
        assert(asked.take(i + 1).drop_last() =~= asked.take(i as int));
        if !holds(provided, &required[i]) {
            let ghost before = missing@;
            missing.push(required[i].clone());
            assert(crate::text::contents(missing@) =~= crate::text::contents(before).push(
                required@[i as int]@,
            ));
        }
        i = i + 1;
    }
    assert(asked.take(i as int) =~= asked);
    missing
}

/// Nothing is missing exactly if each required scope is provided.
pub proof fn law_covered_iff_each_is_provided(required: Seq<Seq<char>>, provided: Seq<Seq<char>>)
    ensures
        missing_scopes(required, provided).len() == 0 <==> forall|i: int|
            0 <= i < required.len() ==> provided.contains(#[trigger] required[i]),
    decreases required.len(),
{
    if required.len() > 0 {
        let front = required.drop_last();
        law_covered_iff_each_is_provided(front, provided);
        if missing_scopes(required, provided).len() == 0 {
            assert forall|i: int| 0 <= i < required.len() implies provided.contains(
                #[trigger] required[i],
            ) by {
                if i < front.len() {
                    assert(provided.contains(front[i]));
                }
            }
        }
        if forall|i: int| 0 <= i < required.len() ==> provided.contains(#[trigger] required[i]) {
            assert forall|i: int| 0 <= i < front.len() implies provided.contains(
                #[trigger] front[i],
            ) by {
                assert(provided.contains(required[i]));
            }
            assert(provided.contains(required[required.len() - 1]));
        }
    }
}

/// What is missing was required and is not provided.
pub proof fn law_missing_was_required(required: Seq<Seq<char>>, provided: Seq<Seq<char>>)
    ensures
        forall|i: int|
            0 <= i < missing_scopes(required, provided).len() ==> required.contains(
                #[trigger] missing_scopes(required, provided)[i],
            ) && !provided.contains(missing_scopes(required, provided)[i]),
    decreases required.len(),
{
    if required.len() > 0 {
        let front = required.drop_last();
        law_missing_was_required(front, provided);
        let missing = missing_scopes(required, provided);
        let before = missing_scopes(front, provided);
        assert forall|i: int| 0 <= i < missing.len() implies required.contains(
            #[trigger] missing[i],
        ) && !provided.contains(missing[i]) by {
            if i < before.len() {
                assert(missing[i] == before[i]);
                assert(front.contains(before[i]));
                let k = choose|k: int| 0 <= k < front.len() && front[k] == before[i];
                assert(required[k] == missing[i]);
            } else {
                assert(required[required.len() - 1] == missing[i]);
            }
        }
    }
}

/// More scopes in the token never cost a permission.
pub proof fn law_more_scopes_never_hurt(
    required: Seq<Seq<char>>,
    fewer: Seq<Seq<char>>,
    more: Seq<Seq<char>>,
)
    requires
        forall|i: int| 0 <= i < fewer.len() ==> more.contains(#[trigger] fewer[i]),
    ensures
        missing_scopes(required, fewer).len() == 0 ==> missing_scopes(required, more).len() == 0,
{
    law_covered_iff_each_is_provided(required, fewer);
    law_covered_iff_each_is_provided(required, more);
    if missing_scopes(required, fewer).len() == 0 {
        assert forall|i: int| 0 <= i < required.len() implies more.contains(
            #[trigger] required[i],
        ) by {
            assert(fewer.contains(required[i]));
            let k = choose|k: int| 0 <= k < fewer.len() && fewer[k] == required[i];
            assert(more.contains(fewer[k]));
        }
    }
}

// ---------------------------------------------------------------------------
// Credentials
// ---------------------------------------------------------------------------
/// Why a request's token is not accepted.
#[derive(Debug, PartialEq, Eq)]
pub enum AuthenticationError {
    /// The request has no `Authorization` header.
    MissingHeader,
    /// The header holds no token.
    InvalidHeader,
    /// No key has been cached yet.
    MissingKey,
    /// What has been cached is not a key, and why.
    BadKey(String),
    /// The token does not verify under the key, and why.
    BadToken(String),
}

/// The model of why a request's token is not accepted.
#[verifier::ext_equal]
pub enum AuthenticationErrorModel {
    MissingHeader,
    InvalidHeader,
    MissingKey,
    BadKey(Seq<char>),
    BadToken(Seq<char>),
}

impl View for AuthenticationError {
    type V = AuthenticationErrorModel;

    open spec fn view(&self) -> AuthenticationErrorModel {
        match self {
            AuthenticationError::MissingHeader => AuthenticationErrorModel::MissingHeader,
            AuthenticationError::InvalidHeader => AuthenticationErrorModel::InvalidHeader,
            AuthenticationError::MissingKey => AuthenticationErrorModel::MissingKey,
            AuthenticationError::BadKey(reason) => AuthenticationErrorModel::BadKey(reason@),
            AuthenticationError::BadToken(reason) => AuthenticationErrorModel::BadToken(reason@),
        }
    }
}

/// An error in words.
pub open spec fn authentication_error_text(error: AuthenticationErrorModel) -> Seq<char> {
    match error {
        AuthenticationErrorModel::MissingHeader => "Missing Authorization Header"@,
        AuthenticationErrorModel::InvalidHeader => "Invalid Auth Header"@,
        AuthenticationErrorModel::MissingKey => "Public key not found in cache"@,
        AuthenticationErrorModel::BadKey(reason) => reason,
        AuthenticationErrorModel::BadToken(reason) => reason,
    }
}

impl AuthenticationError {
    /// The error in words.
    pub fn to_string(&self) -> (text: String)
        ensures
            text@ == authentication_error_text(self@),
            text@ == match self {
                AuthenticationError::MissingHeader => "Missing Authorization Header"@,
                AuthenticationError::InvalidHeader => "Invalid Auth Header"@,
                AuthenticationError::MissingKey => "Public key not found in cache"@,
                AuthenticationError::BadKey(reason) => reason@,
                AuthenticationError::BadToken(reason) => reason@,
            },
    {
        match self {
            AuthenticationError::MissingHeader => "Missing Authorization Header".to_owned(),
            AuthenticationError::InvalidHeader => "Invalid Auth Header".to_owned(),
            AuthenticationError::MissingKey => "Public key not found in cache".to_owned(),
            AuthenticationError::BadKey(reason) => reason.clone(),
            AuthenticationError::BadToken(reason) => reason.clone(),
        }
    }
}

/// The token and the key that a request is to be checked with: the last word of
/// the header and the cached key, if there are such.
pub open spec fn credentials(header: Option<Seq<char>>, key: Option<Seq<u8>>) -> Result<
    (Seq<char>, Seq<u8>),
    AuthenticationErrorModel,
> {
    match header {
        None => Err(AuthenticationErrorModel::MissingHeader),
        Some(text) => if crate::text::words(text).len() == 0 {
            Err(AuthenticationErrorModel::InvalidHeader)
        } else {
            match key {
                None => Err(AuthenticationErrorModel::MissingKey),
                Some(der) => Ok((crate::text::words(text).last(), der)),
            }
        },
    }
}

/// Finds the token and the key that a request is to be checked with.
pub fn select_credentials(auth_header: Option<String>, key: Option<Vec<u8>>) -> (selected: Result<
    (String, Vec<u8>),
    AuthenticationError,
>)
    ensures
        match credentials(
            crate::pattern::text_of(auth_header),
            crate::framing::bytes_of(key),
        ) {
            Ok((token, der)) => selected is Ok && selected->Ok_0.0@ == token && selected->Ok_0.1@
                == der,
            Err(error) => selected is Err && selected->Err_0@ == error,
        },
{
    let header: String = match auth_header {
        Some(header) => header,
        None => {
            return Err(AuthenticationError::MissingHeader);
        },
    };
    let mut parts: Vec<String> = split_whitespace(header.as_str());
    assert(crate::text::contents(parts@).len() == parts@.len());
    let ghost found = parts@;
    let token: String = match parts.pop() {
        Some(token) => token,
        None => {
            return Err(AuthenticationError::InvalidHeader);
        },
    };
    assert(crate::text::contents(found).last() == token@);
    match key {
        Some(der) => Ok((token, der)),
        None => Err(AuthenticationError::MissingKey),
    }
}

/// Why the check of a token fails, by the answers of the reader of keys and of the
/// verifier of tokens; nothing if it does not fail.
pub open spec fn check_failure(checked: Result<Result<(), String>, String>) -> Option<
    AuthenticationErrorModel,
> {
    match checked {
        Err(reason) => Some(AuthenticationErrorModel::BadKey(reason@)),
        Ok(Err(reason)) => Some(AuthenticationErrorModel::BadToken(reason@)),
        Ok(Ok(())) => None,
    }
}

/// The model of an optional error.
pub open spec fn failure_of(failure: Option<AuthenticationError>) -> Option<
    AuthenticationErrorModel,
> {
    match failure {
        Some(error) => Some(error@),
        None => None,
    }
}

/// Concludes from the answers of the reader of keys and of the verifier of tokens
/// whether, and why, the check of a token fails.
pub fn conclude_check(checked: Result<Result<(), String>, String>) -> (failure: Option<
    AuthenticationError,
>)
    ensures
        failure_of(failure) == check_failure(checked),
        match checked {
            Err(reason) => failure == Some(AuthenticationError::BadKey(reason)),
            Ok(Err(reason)) => failure == Some(AuthenticationError::BadToken(reason)),
            Ok(Ok(_)) => failure is None,
        },
{
    match checked {
        Err(reason) => Some(AuthenticationError::BadKey(reason)),
        Ok(Err(reason)) => Some(AuthenticationError::BadToken(reason)),
        Ok(Ok(())) => None,
    }
}

/// The part of a token that holds its claims: what stands between its first dot and
/// the next one. A token without a dot has none.
pub open spec fn claims_part(token: Seq<char>) -> Seq<char> {
    let dot = crate::text::run_length(token, crate::text::Class::Not('.')) as int;
    if dot < token.len() {
        let rest = token.skip(dot + 1);
        rest.take(crate::text::run_length(rest, crate::text::Class::Not('.')) as int)
    } else {
        Seq::empty()
    }
}

/// Finds the part of a token that holds its claims.
pub fn find_claims_part(token: &str) -> (part: String)
    ensures
        part@ == claims_part(token@),
{
    let end: usize = token.unicode_len();
    let start: usize = match find_dot(token, 0) {
        Some(dot) => dot + 1,
        None => {
            proof {
                assert(token@.skip(0) =~= token@);
                reveal_strlit("");
                assert(""@ =~= Seq::<char>::empty());
            }
            return "".to_owned();
        },
    };
    let stop: usize = match find_dot(token, start) {
        Some(dot) => dot,
        None => end,
    };
    proof {
        assert(token@.skip(0) =~= token@);
        let rest = token@.skip(start as int);
        assert(rest.take(stop - start) =~= token@.subrange(start as int, stop as int));
    }
    token.substring_char(start, stop).to_owned()
}

/// Finds the first dot of a token from some place on.
fn find_dot(token: &str, from: usize) -> (found: Option<usize>)
    requires
        from <= token@.len(),
    ensures
        ({
            let rest = token@.skip(from as int);
            let length = crate::text::run_length(rest, crate::text::Class::Not('.'));
            match found {
                Some(dot) => from + length == dot && dot < token@.len(),
                None => length == rest.len(),
            }
        }),
{
    let end: usize = token.unicode_len();
    let ghost rest = token@.skip(from as int);
    let mut at: usize = from;
    while at < end
        invariant
            end == token@.len(),
            from <= at <= end,
            rest == token@.skip(from as int),
            forall|i: int| 0 <= i < at - from ==> #[trigger] rest[i] != '.',
        decreases end - at,
    {
        if token.get_char(at) == '.' {
            proof {
                crate::text::lemma_run_length_is(
                    rest,
                    crate::text::Class::Not('.'),
                    at - from,
                );
            }
            return Some(at);
        }
        at = at + 1;
    }
    proof {
        crate::text::lemma_run_length_is(rest, crate::text::Class::Not('.'), at - from);
    }
    None
}

/// The claims of a token in three parts are the part in the middle.
pub proof fn law_claims_stand_in_the_middle(
    header: Seq<char>,
    claims: Seq<char>,
    signature: Seq<char>,
)
    requires
        crate::comments::lacks(header, '.'),
        crate::comments::lacks(claims, '.'),
    ensures
        claims_part(header + seq!['.'] + claims + seq!['.'] + signature) == claims,
{
    let token = header + seq!['.'] + claims + seq!['.'] + signature;
    crate::text::lemma_run_length_is(
        token,
        crate::text::Class::Not('.'),
        header.len() as int,
    );
    let rest = token.skip(header.len() as int + 1);
    crate::text::lemma_run_length_is(
        rest,
        crate::text::Class::Not('.'),
        claims.len() as int,
    );
    assert(rest.take(claims.len() as int) =~= claims);
}

/// The token of a header is what stands behind its last white space: `Bearer`
/// and a blank, say, or nothing but a blank.
pub proof fn law_token_follows_scheme(
    scheme: Seq<char>,
    gap: char,
    token: Seq<char>,
    key: Seq<u8>,
)
    requires
        crate::text::white_space(gap),
        token.len() > 0,
        forall|i: int| 0 <= i < token.len() ==> !crate::text::white_space(#[trigger] token[i]),
    ensures
        credentials(Some(scheme + seq![gap] + token), Some(key)) == Ok::<
            (Seq<char>, Seq<u8>),
            AuthenticationErrorModel,
        >((token, key)),
{
    crate::text::law_last_word(scheme, gap, token);
}

/// No token is accepted before a key has been cached.
pub proof fn law_no_token_without_key(header: Option<Seq<char>>)
    ensures
        credentials(header, None) is Err,
{
}

/// What is missing of two lists of required scopes is what is missing of the first,
/// all of it, and then what is missing of the second.
pub proof fn law_missing_of_joined_lists(
    front: Seq<Seq<char>>,
    back: Seq<Seq<char>>,
    provided: Seq<Seq<char>>,
)
    ensures
        missing_scopes(front + back, provided) == missing_scopes(front, provided) + missing_scopes(
            back,
            provided,
        ),
    decreases back.len(),
{
    if back.len() == 0 {
        assert(front + back =~= front);
        assert(missing_scopes(front + back, provided) =~= missing_scopes(front, provided)
            + missing_scopes(back, provided));
    } else {
        assert((front + back).drop_last() =~= front + back.drop_last());
        assert((front + back).last() == back.last());
        law_missing_of_joined_lists(front, back.drop_last(), provided);
        assert(missing_scopes(front + back, provided) =~= missing_scopes(front, provided)
            + missing_scopes(back, provided));
    }
}

/// A single required scope is missing exactly if it is not among those provided.
pub proof fn law_missing_of_one_scope(scope: Seq<char>, provided: Seq<Seq<char>>)
    ensures
        (exists|i: int| 0 <= i < provided.len() && #[trigger] provided[i] == scope)
            ==> missing_scopes(seq![scope], provided).len() == 0,
        (forall|i: int| 0 <= i < provided.len() ==> #[trigger] provided[i] != scope)
            ==> missing_scopes(seq![scope], provided) == seq![scope],
{
    assert(seq![scope].drop_last() =~= Seq::empty());
    assert(missing_scopes(seq![scope].drop_last(), provided) =~= Seq::empty());
    assert(seq![scope].last() == scope);
    if exists|i: int| 0 <= i < provided.len() && #[trigger] provided[i] == scope {
        assert(provided.contains(scope));
    } else {
        assert(missing_scopes(seq![scope], provided) =~= seq![scope]);
    }
}

/// What is said of missing scopes is the same words for all of them, and behind these
/// the whole list.
pub proof fn law_message_lists_what_is_missing(missing: Seq<Seq<char>>)
    ensures
        missing_message(missing).len() == 25 + debug_text(missing).len(),
        missing_message(missing).take(25) == "Missing required scopes: "@,
        missing_message(missing).skip(25) == debug_text(missing),
{
    reveal_strlit("Missing required scopes: ");
    assert(missing_message(missing).take(25) =~= "Missing required scopes: "@);
    assert(missing_message(missing).skip(25) =~= debug_text(missing));
}

/// The token of a header is the last text in it that has no white space, whatever
/// its length and whatever stands in front of it; white space may follow it. It goes
/// with the key that is cached, unless none is.
pub proof fn law_last_word_is_the_token(
    front: Seq<char>,
    token: Seq<char>,
    trailing: Seq<char>,
    key: Seq<u8>,
)
    requires
        front.len() > 0 ==> crate::text::white_space(front.last()),
        token.len() > 0,
        forall|i: int| 0 <= i < token.len() ==> !crate::text::white_space(#[trigger] token[i]),
        forall|i: int|
            0 <= i < trailing.len() ==> crate::text::white_space(#[trigger] trailing[i]),
    ensures
        credentials(Some(front + token + trailing), Some(key)) == Ok::<
            (Seq<char>, Seq<u8>),
            AuthenticationErrorModel,
        >((token, key)),
        credentials(Some(front + token + trailing), None) == Err::<
            (Seq<char>, Seq<u8>),
            AuthenticationErrorModel,
        >(AuthenticationErrorModel::MissingKey),
{
    let text = front + token + trailing;
    let head = front + token;
    crate::text::law_one_word_is_itself(token);
    if front.len() > 0 {
        let gap = front.last();
        assert(head =~= front.drop_last() + seq![gap] + token);
        crate::text::law_every_word_counts(front.drop_last(), gap, token);
    } else {
        assert(head =~= token);
    }
    assert(crate::text::words(head).last() == token);
    if trailing.len() > 0 {
        let gap = trailing[0];
        let rest = trailing.skip(1);
        assert(text =~= head + seq![gap] + rest);
        assert forall|i: int| 0 <= i < rest.len() implies crate::text::white_space(
            #[trigger] rest[i],
        ) by {
            assert(rest[i] == trailing[i + 1]);
        }
        crate::text::law_white_space_has_no_words(rest);
        crate::text::law_every_word_counts(head, gap, rest);
        assert(crate::text::words(text) =~= crate::text::words(head));
    } else {
        assert(text =~= head);
    }
}

/// Without a header, and with one that is nothing but white space, there is no token,
/// whether or not a key is cached.
pub proof fn law_no_token_without_a_word(blank: Seq<char>, key: Option<Seq<u8>>)
    requires
        forall|i: int| 0 <= i < blank.len() ==> crate::text::white_space(#[trigger] blank[i]),
    ensures
        credentials(None, key) == Err::<(Seq<char>, Seq<u8>), AuthenticationErrorModel>(
            AuthenticationErrorModel::MissingHeader,
        ),
        credentials(Some(blank), key) == Err::<(Seq<char>, Seq<u8>), AuthenticationErrorModel>(
            AuthenticationErrorModel::InvalidHeader,
        ),
{
    crate::text::law_white_space_has_no_words(blank);
}

/// A token without a dot has no claims; those of a token with one dot are all that
/// stands behind it.
pub proof fn law_claims_of_a_shorter_token(header: Seq<char>, claims: Seq<char>)
    requires
        crate::comments::lacks(header, '.'),
        crate::comments::lacks(claims, '.'),
    ensures
        claims_part(header).len() == 0,
        claims_part(header + seq!['.'] + claims) == claims,
{
    let dots = crate::text::Class::Not('.');
    crate::text::lemma_run_length_is(header, dots, header.len() as int);
    let token = header + seq!['.'] + claims;
    crate::text::lemma_run_length_is(token, dots, header.len() as int);
    let rest = token.skip(header.len() as int + 1);
    assert(rest =~= claims);
    crate::text::lemma_run_length_is(rest, dots, claims.len() as int);
    assert(rest.take(claims.len() as int) =~= claims);
}

/// The models of errors have all of them.
pub proof fn law_error_models_keep_everything(message: String)
    ensures
        AuthError::Unauthenticated(message)@ == AuthErrorModel::Unauthenticated(message@),
        AuthError::Unauthorized(message)@ == AuthErrorModel::Unauthorized(message@),
        AuthenticationError::MissingHeader@ == AuthenticationErrorModel::MissingHeader,
        AuthenticationError::InvalidHeader@ == AuthenticationErrorModel::InvalidHeader,
        AuthenticationError::MissingKey@ == AuthenticationErrorModel::MissingKey,
        AuthenticationError::BadKey(message)@ == AuthenticationErrorModel::BadKey(message@),
        AuthenticationError::BadToken(message)@ == AuthenticationErrorModel::BadToken(message@),
{
}

} // verus!
