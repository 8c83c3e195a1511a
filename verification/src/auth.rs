//! The authentication schemes that may guard a route.
//!
//! A scheme is chosen by a tag and checks the request's headers against an
//! [`AuthConfig`]. Only `basic`, `bearer`, `api_key` and `oauth2` compare credentials;
//! `digest`, `oauth1`, `aws` and `hawk` look at the scheme word alone. A tag that is not
//! known, and a scheme without a configuration, let every request through.

use vstd::prelude::*;
use vstd::string::StringExecFns;
use vstd::utf8::decode_utf8;
use vstd::utf8::valid_utf8;
use base64::DecodeError;
use base64::Engine;
use http::HeaderMap;
use http::HeaderValue;
use std::string::FromUtf8Error;
use crate::headers::header_text;
use crate::headers::header_text_of;
use crate::route::field_or;
use crate::route::field_or_empty;
use crate::route::text_or;
use crate::route::text_or_empty;
use crate::route::AuthConfig;
use crate::route::MockRoute;
use crate::text::after_prefix;
use crate::text::starts_with;
use crate::text::text_eq;

verus! {

/// The error of the `base64` crate's decoders, carried as an opaque value.
#[verifier::external_type_specification]
#[verifier::external_body]
pub struct ExDecodeError(DecodeError);

/// The error of `String::from_utf8`, carried as an opaque value.
#[verifier::external_type_specification]
#[verifier::external_body]
pub struct ExFromUtf8Error(FromUtf8Error);

/// The bytes that a text stands for in standard base64 (the alphabet with `+` and `/`,
/// padded with `=`), or `None` where the text is not such an encoding.
pub uninterp spec fn standard_base64(text: Seq<char>) -> Option<Seq<u8>>;

/// Calls `decode` of the `base64` crate's `STANDARD` engine.
///
/// Trusted: the outcome is a function of the text alone, named `standard_base64`.
#[verifier::external_body]
fn decode_standard(input: &str) -> (decoded: Result<Vec<u8>, DecodeError>)
    ensures
        match decoded {
            Ok(bytes) => standard_base64(input@) == Some(bytes@),
            Err(_) => standard_base64(input@) is None,
        },
{
    base64::engine::general_purpose::STANDARD.decode(input)
}

/// `String::from_utf8` succeeds exactly on well-formed UTF-8 and then returns the
/// characters that the bytes encode.
pub assume_specification[ String::from_utf8 ](bytes: Vec<u8>) -> (text: Result<
    String,
    FromUtf8Error,
>)
    ensures
        match text {
            Ok(s) => valid_utf8(bytes@) && s@ == decode_utf8(bytes@),
            Err(_) => !valid_utf8(bytes@),
        },
;

/// The text that bytes encode in UTF-8, if they encode one.
pub open spec fn utf8_text_of(bytes: Seq<u8>) -> Option<Seq<char>> {
    if valid_utf8(bytes) {
        Some(decode_utf8(bytes))
    } else {
        None
    }
}

/// The text that a base64 payload carries: its bytes decoded and read as UTF-8.
pub open spec fn base64_text(payload: Seq<char>) -> Option<Seq<char>> {
    match standard_base64(payload) {
        Some(bytes) => utf8_text_of(bytes),
        None => None,
    }
}

/// What follows `prefix` in `text`, where `text` begins with it.
pub open spec fn rest_after(prefix: Seq<char>, text: Seq<char>) -> Option<Seq<char>> {
    if prefix.is_prefix_of(text) {
        Some(text.skip(prefix.len() as int))
    } else {
        None
    }
}

/// The credential that `basic` expects: user name, a colon, password.
pub open spec fn basic_credentials(config: AuthConfig) -> Seq<char> {
    text_or_empty(config.username) + ":"@ + text_or_empty(config.password)
}

/// `basic`: the header is `Basic `, then a base64 payload that carries exactly the
/// expected credential.
pub open spec fn basic_accepts(config: AuthConfig, authorization: Seq<char>) -> bool {
    match rest_after("Basic "@, authorization) {
        Some(payload) => base64_text(payload) == Some(basic_credentials(config)),
        None => false,
    }
}

/// `bearer`: the header is exactly `Bearer ` followed by the configured token.
pub open spec fn bearer_accepts(config: AuthConfig, authorization: Seq<char>) -> bool {
    authorization == "Bearer "@ + text_or_empty(config.token)
}

/// The name of the header that `api_key` reads.
pub open spec fn api_key_header(config: AuthConfig) -> Seq<char> {
    text_or(config.header, "X-API-Key"@)
}

/// `api_key`: the configured header carries exactly the configured key.
pub open spec fn api_key_accepts(config: AuthConfig, headers: HeaderMap<HeaderValue>) -> bool {
    header_text_of(headers, api_key_header(config)) == text_or_empty(config.key)
}

/// The `Authorization` header of a request, as text.
pub open spec fn authorization_of(headers: HeaderMap<HeaderValue>) -> Seq<char> {
    header_text_of(headers, "authorization"@)
}

/// Whether the scheme `auth_type` with `config` lets a request with `headers` through.
pub open spec fn auth_accepts(
    auth_type: Seq<char>,
    config: Option<AuthConfig>,
    headers: HeaderMap<HeaderValue>,
) -> bool {
    if auth_type == "none"@ {
        true
    } else {
        match config {
            None => true,
            Some(config) => {
                let authorization = authorization_of(headers);
                if auth_type == "basic"@ {
                    basic_accepts(config, authorization)
                } else if auth_type == "bearer"@ {
                    bearer_accepts(config, authorization)
                } else if auth_type == "api_key"@ {
                    api_key_accepts(config, headers)
                } else if auth_type == "digest"@ {
                    "Digest "@.is_prefix_of(authorization)
                } else if auth_type == "oauth1"@ {
                    "OAuth "@.is_prefix_of(authorization)
                } else if auth_type == "oauth2"@ {
                    bearer_accepts(config, authorization)
                } else if auth_type == "aws"@ {
                    "AWS4-HMAC-SHA256"@.is_prefix_of(authorization)
                } else if auth_type == "hawk"@ {
                    "Hawk "@.is_prefix_of(authorization)
                } else {
                    true
                }
            },
        }
    }
}

/// Whether a route lets a request with `headers` through. A route without a scheme tag
/// is guarded by `none`.
pub open spec fn route_accepts(route: MockRoute, headers: HeaderMap<HeaderValue>) -> bool {
    auth_accepts(text_or(route.auth_type, "none"@), route.auth_config, headers)
}

/// Reads bytes as UTF-8 text.
pub fn utf8_text(bytes: Vec<u8>) -> (text: Option<String>)
    ensures
        match text {
            Some(t) => utf8_text_of(bytes@) == Some(t@),
            None => utf8_text_of(bytes@) is None,
        },
{
    match String::from_utf8(bytes) {
        Ok(text) => Some(text),
        Err(_) => None,
    }
}

/// Decodes a standard base64 payload into text. `None` where the payload is no base64
/// or its bytes are no UTF-8.
pub fn base64_decode(input: &str) -> (text: Option<String>)
    ensures
        match text {
            Some(t) => base64_text(input@) == Some(t@),
            None => base64_text(input@) is None,
        },
{
    match decode_standard(input) {
        Ok(bytes) => utf8_text(bytes),
        Err(_) => None,
    }
}

/// Whether a decoded payload is the credential that `config` expects.
pub fn credentials_match(config: &AuthConfig, decoded: &Option<String>) -> (same: bool)
    ensures
        same == match *decoded {
            Some(text) => text@ == basic_credentials(*config),
            None => false,
        },
{
    match decoded {
        Some(text) => {
            let mut expected = String::from_str(field_or_empty(&config.username));
            expected.append(":");
            expected.append(field_or_empty(&config.password));
            text_eq(text.as_str(), expected.as_str())
        },
        None => false,
    }
}

/// `basic` on the text of the `Authorization` header.
pub fn basic_header_accepted(config: &AuthConfig, authorization: &str) -> (ok: bool)
    ensures
        ok == basic_accepts(*config, authorization@),
{
    match after_prefix(authorization, "Basic ") {
        Some(payload) => {
            let decoded = base64_decode(payload);
            credentials_match(config, &decoded)
        },
        None => false,
    }
}

/// `bearer` on the text of the `Authorization` header.
pub fn bearer_header_accepted(config: &AuthConfig, authorization: &str) -> (ok: bool)
    ensures
        ok == bearer_accepts(*config, authorization@),
{
    let expected = field_or_empty(&config.token);
    match after_prefix(authorization, "Bearer ") {
        Some(token) => {
            let same = text_eq(token, expected);
            proof {
                let prefix = "Bearer "@;
                assert(authorization@ =~= prefix + authorization@.skip(prefix.len() as int));
                if authorization@ == prefix + expected@ {
                    assert((prefix + expected@).skip(prefix.len() as int) =~= expected@);
                }
            }
            same
        },
        None => {
            proof {
                let prefix = "Bearer "@;
                if authorization@ == prefix + expected@ {
                    assert((prefix + expected@).subrange(0, prefix.len() as int) =~= prefix);
                }
            }
            false
        },
    }
}

/// Validates a request against `basic`.
pub fn validate_basic_auth(config: &AuthConfig, headers: &HeaderMap<HeaderValue>) -> (ok: bool)
    ensures
        ok == basic_accepts(*config, authorization_of(*headers)),
{
    basic_header_accepted(config, header_text(headers, "authorization"))
}

/// Validates a request against `bearer`.
pub fn validate_bearer_auth(config: &AuthConfig, headers: &HeaderMap<HeaderValue>) -> (ok: bool)
    ensures
        ok == bearer_accepts(*config, authorization_of(*headers)),
{
    bearer_header_accepted(config, header_text(headers, "authorization"))
}

/// Validates a request against `api_key`: the header named by the configuration
/// (`X-API-Key` where it names none) must carry the configured key.
pub fn validate_api_key_auth(config: &AuthConfig, headers: &HeaderMap<HeaderValue>) -> (ok: bool)
    ensures
        ok == api_key_accepts(*config, *headers),
{
    let header_name = field_or(&config.header, "X-API-Key");
    let expected_key = field_or_empty(&config.key);
    let actual_key = header_text(headers, header_name);
    text_eq(actual_key, expected_key)
}

/// Validates a request against `digest`: the scheme word is all that is looked at.
pub fn validate_digest_auth(_config: &AuthConfig, headers: &HeaderMap<HeaderValue>) -> (ok: bool)
    ensures
        ok == "Digest "@.is_prefix_of(authorization_of(*headers)),
{
    starts_with(header_text(headers, "authorization"), "Digest ")
}

/// Validates a request against `oauth1`: the scheme word is all that is looked at.
pub fn validate_oauth1_auth(_config: &AuthConfig, headers: &HeaderMap<HeaderValue>) -> (ok: bool)
    ensures
        ok == "OAuth "@.is_prefix_of(authorization_of(*headers)),
{
    starts_with(header_text(headers, "authorization"), "OAuth ")
}

/// Validates a request against `oauth2`, which is `bearer` under another tag.
pub fn validate_oauth2_auth(config: &AuthConfig, headers: &HeaderMap<HeaderValue>) -> (ok: bool)
    ensures
        ok == bearer_accepts(*config, authorization_of(*headers)),
{
    validate_bearer_auth(config, headers)
}

/// Validates a request against `aws`: the algorithm word is all that is looked at.
pub fn validate_aws_auth(_config: &AuthConfig, headers: &HeaderMap<HeaderValue>) -> (ok: bool)
    ensures
        ok == "AWS4-HMAC-SHA256"@.is_prefix_of(authorization_of(*headers)),
{
    starts_with(header_text(headers, "authorization"), "AWS4-HMAC-SHA256")
}

/// Validates a request against `hawk`: the scheme word is all that is looked at.
pub fn validate_hawk_auth(_config: &AuthConfig, headers: &HeaderMap<HeaderValue>) -> (ok: bool)
    ensures
        ok == "Hawk "@.is_prefix_of(authorization_of(*headers)),
{
    starts_with(header_text(headers, "authorization"), "Hawk ")
}

/// Validates a request against the scheme `auth_type`.
pub fn validate_scheme(
    auth_type: &str,
    config: &Option<AuthConfig>,
    headers: &HeaderMap<HeaderValue>,
) -> (ok: bool)
    ensures
        ok == auth_accepts(auth_type@, *config, *headers),
{
    if text_eq(auth_type, "none") {
        return true;
    }
    let config = match config {
        Some(config) => config,
        None => {
            return true;
        },
    };
    if text_eq(auth_type, "basic") {
        validate_basic_auth(config, headers)
    } else if text_eq(auth_type, "bearer") {
        validate_bearer_auth(config, headers)
    } else if text_eq(auth_type, "api_key") {
        validate_api_key_auth(config, headers)
    } else if text_eq(auth_type, "digest") {
        validate_digest_auth(config, headers)
    } else if text_eq(auth_type, "oauth1") {
        validate_oauth1_auth(config, headers)
    } else if text_eq(auth_type, "oauth2") {
        validate_oauth2_auth(config, headers)
    } else if text_eq(auth_type, "aws") {
        validate_aws_auth(config, headers)
    } else if text_eq(auth_type, "hawk") {
        validate_hawk_auth(config, headers)
    } else {
        true
    }
}

/// Whether a request with `req_headers` may have the response of `route`.
pub fn validate_auth(route: &MockRoute, req_headers: &HeaderMap<HeaderValue>) -> (ok: bool)
    ensures
        ok == route_accepts(*route, *req_headers),
{
    let auth_type = field_or(&route.auth_type, "none");
    validate_scheme(auth_type, &route.auth_config, req_headers)
}

/// `basic` accepts a header `Basic <payload>` exactly when the payload decodes to the
/// configured credential, user name and password joined by a colon.
pub proof fn lemma_basic_accepts_exact_credential(config: AuthConfig, payload: Seq<char>)
    ensures
        basic_accepts(config, "Basic "@ + payload) <==> base64_text(payload) == Some(
            basic_credentials(config),
        ),
{
    let prefix = "Basic "@;
    assert((prefix + payload).subrange(0, prefix.len() as int) =~= prefix);
    assert((prefix + payload).skip(prefix.len() as int) =~= payload);
}

/// `basic` rejects every header that does not begin with the scheme word `Basic `,
/// letter for letter.
pub proof fn lemma_basic_needs_scheme_word(config: AuthConfig, authorization: Seq<char>)
    requires
        !"Basic "@.is_prefix_of(authorization),
    ensures
        !basic_accepts(config, authorization),
{
}

/// A header that `basic` accepts for one credential is rejected for every other: no
/// change to the expected user name or password, however small, goes unnoticed.
pub proof fn lemma_basic_rejects_any_other_credential(
    config: AuthConfig,
    other: AuthConfig,
    authorization: Seq<char>,
)
    requires
        basic_accepts(config, authorization),
        basic_credentials(other) != basic_credentials(config),
    ensures
        !basic_accepts(other, authorization),
{
}

/// `bearer` accepts exactly one header: `Bearer `, then the configured token.
pub proof fn lemma_bearer_accepts_exact_header(config: AuthConfig, authorization: Seq<char>)
    ensures
        bearer_accepts(config, authorization) <==> authorization == "Bearer "@ + text_or_empty(
            config.token,
        ),
{
}

/// The scheme word of `bearer` is case-sensitive: a header that begins with `bearer `
/// is rejected, whatever follows.
pub proof fn lemma_bearer_rejects_lower_case_scheme(config: AuthConfig, rest: Seq<char>)
    ensures
        !bearer_accepts(config, "bearer "@ + rest),
{
    reveal_strlit("Bearer ");
    reveal_strlit("bearer ");
    let wrong = "bearer "@ + rest;
    let right = "Bearer "@ + text_or_empty(config.token);
    assert(wrong[0] == 'b');
    assert(right[0] == 'B');
}

/// `api_key` reads its header without regard to the case of the name: two
/// configurations that expect the same key under names that differ only in case accept
/// the same requests.
pub proof fn lemma_api_key_header_name_ignores_case(
    config: AuthConfig,
    other: AuthConfig,
    headers: HeaderMap<HeaderValue>,
)
    requires
        crate::text::eq_ignoring_ascii_case(api_key_header(config), api_key_header(other)),
        text_or_empty(config.key) == text_or_empty(other.key),
    ensures
        api_key_accepts(config, headers) == api_key_accepts(other, headers),
{
    crate::headers::lemma_header_name_case_insensitive(
        headers,
        api_key_header(config),
        api_key_header(other),
    );
}

/// `api_key` compares the value exactly: a request is accepted by at most one expected
/// key.
pub proof fn lemma_api_key_value_is_exact(
    config: AuthConfig,
    other: AuthConfig,
    headers: HeaderMap<HeaderValue>,
)
    requires
        api_key_header(config) == api_key_header(other),
        api_key_accepts(config, headers),
        text_or_empty(config.key) != text_or_empty(other.key),
    ensures
        !api_key_accepts(other, headers),
{
}

/// A route without a scheme tag, or with the tag `none`, lets every request through,
/// whatever its headers are; it needs no `Authorization` header.
pub proof fn lemma_unguarded_route_accepts(route: MockRoute, headers: HeaderMap<HeaderValue>)
    requires
        route.auth_type is None || route.auth_type->0@ == "none"@,
    ensures
        route_accepts(route, headers),
{
}

/// A scheme without a configuration lets every request through.
pub proof fn lemma_scheme_without_config_accepts(
    auth_type: Seq<char>,
    headers: HeaderMap<HeaderValue>,
)
    ensures
        auth_accepts(auth_type, None, headers),
{
}

} // verus!
