//! The part of the filter that outlives requests: its configuration and the key
//! that it keeps for all of them.

use crate::handler::HttpHandler;
use crate::http::{fetch, HttpCall};
use crate::keys::{encode_key, select_key, Jwks, KeyUpdate};
use crate::parse::parse_thrift;
use vstd::prelude::*;

verus! {

/// How often, in seconds, the filter looks whether a key has to be fetched.
pub const PUBLIC_KEY_REFRESH_INTERVAL_SECS: u64 = 3;

/// The name under which the key is cached.
pub const PUBLIC_KEY_CACHE_KEY: &'static str = "public_key";

/// Where the upstream publishes its keys.
pub const JWKS_PATH: &'static str = "/.well-known/jwks.json";

/// The configuration of the filter.
#[derive(Debug)]
pub struct FilterConfig {
    /// Name of the Thrift service for which the filter is being configured.
    pub service_name: Option<String>,
}

impl Default for FilterConfig {
    fn default() -> (config: Self)
        ensures
            config.service_name is None,
    {
        FilterConfig { service_name: None }
    }
}

impl Clone for FilterConfig {
    fn clone(&self) -> (copy: Self)
        ensures
            copy == *self,
    {
        match &self.service_name {
            Some(name) => FilterConfig { service_name: Some(name.clone()) },
            None => FilterConfig { service_name: None },
        }
    }
}

/// The part of the filter that outlives requests.
#[derive(Debug)]
pub struct RootHandler {
    pub config: FilterConfig,
}

impl Default for RootHandler {
    fn default() -> (handler: Self)
        ensures
            handler.config.service_name is None,
    {
        RootHandler { config: FilterConfig::default() }
    }
}

impl Clone for RootHandler {
    fn clone(&self) -> (copy: Self)
        ensures
            copy == *self,
    {
        RootHandler { config: self.config.clone() }
    }
}

/// What is to be done about the cached key after an answer that holds a set of
/// keys, or one that holds none.
pub open spec fn key_update_is(update: KeyUpdate, jwks: Option<Jwks>) -> bool {
    match jwks {
        None => update is Keep,
        Some(set) => match crate::keys::first_rs256(set.keys@) {
            None => update is Keep,
            Some(key) => match crate::keys::key_der(key) {
                None => update is Malformed,
                Some(der) => update is Store && update->Store_0@ == der,
            },
        },
    }
}

impl RootHandler {
    /// The handler of a new request, to which the service description in
    /// `scopes_file` applies: nobody has been authenticated, and no scopes have
    /// been asked for. There is none if the description is not accepted.
    pub fn create_http_context(&self, scopes_file: String) -> (created: Result<HttpHandler, String>)
        ensures
            match crate::parse::thrift_services(scopes_file@) {
                Err(error) => created is Err && created->Err_0@ == error,
                Ok(services) => created is Ok && created->Ok_0@ == (crate::handler::HandlerModel {
                    service: crate::pattern::text_of(self.config.service_name),
                    scopes: None,
                    body: crate::handler::asking(crate::handler::PhaseModel::Idle),
                    scopes_file: scopes_file@,
                    services,
                }),
            },
            created is Err <==> crate::parse::namespace_in(
                crate::comments::without_comments(scopes_file@),
            ) is None,
    {
        match parse_thrift(scopes_file.as_str()) {
            Err(error) => Err(error),
            Ok(thrift_config) => Ok(
                HttpHandler::new(self.config.clone(), scopes_file, thrift_config),
            ),
        }
    }

    /// Takes over the configuration that the host hands over, and gives the
    /// period, in seconds, after which the host is to call `on_tick` again and
    /// again. Where there is no configuration, or one that cannot be read,
    /// nothing changes, and the configuration is refused.
    pub fn on_configure(&mut self, configuration: Option<Result<FilterConfig, String>>) -> (period:
        Option<u64>)
        ensures
            match configuration {
                Some(Ok(config)) => final(self).config == config && period == Some(3u64),
                _ => *final(self) == *old(self) && period is None,
            },
    {
        match configuration {
            Some(Ok(config)) => {
                self.config = config;
                Some(PUBLIC_KEY_REFRESH_INTERVAL_SECS)
            },
            _ => None,
        }
    }

    /// The call that fetches the issuer's keys, to be made as long as no key is
    /// cached.
    pub fn on_tick(&self, cached_key: &Option<Vec<u8>>) -> (call: Option<HttpCall>)
        ensures
            match call {
                Some(made) => *cached_key is None && made@ == crate::http::fetch_model(
                    JWKS_PATH@,
                ),
                None => *cached_key is Some,
            },
            call matches Some(made) ==> made@.upstream == "auth"@ && made@.headers[1] == (
                ":path"@,
                "/.well-known/jwks.json"@,
            ),
    {
        match cached_key {
            Some(_) => None,
            None => Some(fetch(JWKS_PATH.to_owned())),
        }
    }

    /// What is to be done about the cached key after an answer of the issuer,
    /// which may have no body, or one that cannot be read.
    pub fn on_http_call_response(&self, body: Option<Result<Jwks, String>>) -> (update: KeyUpdate)
        ensures
            key_update_is(
                update,
                match body {
                    Some(Ok(jwks)) => Some(jwks),
                    _ => None,
                },
            ),
            update matches KeyUpdate::Store(der) ==> crate::keys::rs256_key_readable(der@),
    {
        match body {
            Some(jwks) => self.handle_get_token_res(jwks),
            None => KeyUpdate::Keep,
        }
    }

    /// What is to be done about the cached key after an answer with a body: the
    /// first key for RS256 is cached, in a form from which it can be read again.
    pub fn handle_get_token_res(&self, jwks: Result<Jwks, String>) -> (update: KeyUpdate)
        ensures
            key_update_is(
                update,
                match jwks {
                    Ok(set) => Some(set),
                    Err(_) => None,
                },
            ),
            update matches KeyUpdate::Store(der) ==> crate::keys::rs256_key_readable(der@),
    {
        match jwks {
            Err(_) => KeyUpdate::Keep,
            Ok(set) => match select_key(&set) {
                None => KeyUpdate::Keep,
                Some(key) => match encode_key(key) {
                    Some(der) => KeyUpdate::Store(der),
                    None => KeyUpdate::Malformed,
                },
            },
        }
    }
}

/// The first key for RS256 in an answer decides, whatever stands in front of it and
/// behind it: it is cached in DER whenever its modulus and its exponent decode and the
/// constructor of keys takes them, however long they are, and only where one of this
/// fails is the answer malformed.
pub proof fn law_first_rs256_key_is_cached(
    update: KeyUpdate,
    set: Jwks,
    front: Seq<crate::keys::Jwk>,
    key: crate::keys::Jwk,
    behind: Seq<crate::keys::Jwk>,
)
    requires
        key_update_is(update, Some(set)),
        set.keys@ == front.push(key) + behind,
        forall|i: int| 0 <= i < front.len() ==> (#[trigger] front[i]).alg@ != "RS256"@,
        key.alg@ == "RS256"@,
    ensures
        match (
            crate::keys::base64_url_decode(key.n@),
            crate::keys::base64_url_decode(key.e@),
        ) {
            (Some(n), Some(e)) => match crate::keys::rs256_public_key_der(n, e) {
                Some(der) => update matches KeyUpdate::Store(stored) && stored@ == der,
                None => update is Malformed,
            },
            _ => update is Malformed,
        },
{
    crate::keys::law_first_rs256_counts(front, key, behind);
}

/// An answer without a set of keys, or without a key for RS256 in it, changes nothing.
pub proof fn law_nothing_is_cached_without_rs256(update: KeyUpdate, jwks: Option<Jwks>)
    requires
        key_update_is(update, jwks),
        jwks matches Some(set) ==> forall|i: int|
            0 <= i < set.keys@.len() ==> (#[trigger] set.keys@[i]).alg@ != "RS256"@,
    ensures
        update is Keep,
{
    if let Some(set) = jwks {
        crate::keys::law_no_rs256(set.keys@);
    }
}

/// The name under which the key is cached, and where keys are published.
pub proof fn law_where_the_key_is_found()
    ensures
        PUBLIC_KEY_CACHE_KEY@ == "public_key"@,
        JWKS_PATH@ == "/.well-known/jwks.json"@,
        PUBLIC_KEY_REFRESH_INTERVAL_SECS == 3,
{
}

} // verus!
