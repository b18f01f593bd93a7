//! Authorisation logic of an Envoy filter for Thrift services.

pub mod annotations;
pub mod auth;
pub mod comments;
pub mod framing;
pub mod handler;
pub mod http;
pub mod keys;
pub mod laws;
pub mod parse;
pub mod pattern;
pub mod root;
pub mod string_map;
pub mod text;
