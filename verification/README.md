# thrift_scope_filter

The authorisation logic of an Envoy filter for Thrift services, verified with
[Verus](https://github.com/verus-lang/verus).

A request is let through if its bearer token verifies under the key that the
issuer publishes, and if the token gives every scope that the called method asks
for. Which scopes these are is answered by an upstream, or read from the
annotations of a Thrift service description.

- `src/parse.rs`, `src/pattern.rs`: reading of service descriptions
- `src/comments.rs`, `src/annotations.rs`: what comments and annotations are
- `src/framing.rs`: the name of the method in a Thrift message
- `src/auth.rs`: scopes and credentials
- `src/keys.rs`: published keys, and the check of tokens
- `src/root.rs`, `src/handler.rs`, `src/http.rs`: what the filter does on each
  event of its host
- `src/laws.rs`: what holds of the filter as a whole
- `src/string_map.rs`, `src/text.rs`: dictionaries and words
- `app/`: the filter as Envoy loads it
