//! The decisions of the outbound proxy: which methods it sends, whether it follows
//! redirects, and what it reports of a response. Sending is left to the caller.

use vstd::prelude::*;
use vstd::string::StringExecFns;
use vstd::utf8::encode_utf8;
use crate::route::distinct_names;
use crate::route::header_map;
use crate::route::header_texts;
use crate::route::keep_last_per_name;
use crate::text::ascii_upper_text;
use crate::text::eq_ignoring_ascii_case;
use crate::text::is_ascii_text;
use crate::text::lemma_case_variant_has_same_capitals;
use crate::text::text_eq;

verus! {

/// The upper-case form of a text by the rules of Unicode.
pub uninterp spec fn unicode_uppercase(text: Seq<char>) -> Seq<char>;

/// `str::to_uppercase` returns the upper-case form of the text, which depends on the
/// text alone and is named `unicode_uppercase`. Of a text of ASCII characters it is the
/// text with its small letters as capital letters.
pub assume_specification[ str::to_uppercase ](text: &str) -> (upper: String)
    ensures
        upper@ == unicode_uppercase(text@),
        is_ascii_text(text@) ==> upper@ == ascii_upper_text(text@),
;

/// The methods that the proxy sends.
#[derive(Debug, Clone, Copy, PartialEq, Eq, Structural)]
pub enum ProxyMethod {
    Get,
    Post,
    Put,
    Delete,
    Patch,
}

/// The method that an upper-case name stands for, if the proxy sends it.
pub open spec fn method_of(upper: Seq<char>) -> Option<ProxyMethod> {
    if upper == "GET"@ {
        Some(ProxyMethod::Get)
    } else if upper == "POST"@ {
        Some(ProxyMethod::Post)
    } else if upper == "PUT"@ {
        Some(ProxyMethod::Put)
    } else if upper == "DELETE"@ {
        Some(ProxyMethod::Delete)
    } else if upper == "PATCH"@ {
        Some(ProxyMethod::Patch)
    } else {
        None
    }
}

/// The error for a method that the proxy does not send. It names the method in upper
/// case.
pub open spec fn unsupported_message(upper: Seq<char>) -> Seq<char> {
    "Unsupported method: "@ + upper
}

/// What the proxy makes of a method name that is already in upper case.
pub open spec fn method_or_error(upper: Seq<char>) -> Result<ProxyMethod, Seq<char>> {
    match method_of(upper) {
        Some(method) => Ok(method),
        None => Err(unsupported_message(upper)),
    }
}

/// The outcome of a method lookup, with the error as text.
pub open spec fn outcome_text(outcome: Result<ProxyMethod, String>) -> Result<
    ProxyMethod,
    Seq<char>,
> {
    match outcome {
        Ok(method) => Ok(method),
        Err(message) => Err(message@),
    }
}

/// Reads a method name that is already in upper case: one of `GET`, `POST`, `PUT`,
/// `DELETE` and `PATCH`, or an error that names what was asked for.
pub fn parse_method(upper: &str) -> (outcome: Result<ProxyMethod, String>)
    ensures
        outcome_text(outcome) == method_or_error(upper@),
{
    if text_eq(upper, "GET") {
        Ok(ProxyMethod::Get)
    } else if text_eq(upper, "POST") {
        Ok(ProxyMethod::Post)
    } else if text_eq(upper, "PUT") {
        Ok(ProxyMethod::Put)
    } else if text_eq(upper, "DELETE") {
        Ok(ProxyMethod::Delete)
    } else if text_eq(upper, "PATCH") {
        Ok(ProxyMethod::Patch)
    } else {
        let mut message = String::from_str("Unsupported method: ");
        message.append(upper);
        Err(message)
    }
}

/// Reads a method name in any case: the name is put in upper case and then read as
/// `parse_method` reads it.
pub fn normalize_method(method: &str) -> (outcome: Result<ProxyMethod, String>)
    ensures
        outcome_text(outcome) == method_or_error(unicode_uppercase(method@)),
        is_ascii_text(method@) ==> outcome_text(outcome) == method_or_error(
            ascii_upper_text(method@),
        ),
{
    let upper = method.to_uppercase();
    parse_method(upper.as_str())
}

/// Whether the proxy follows redirects: always, unless it is told not to.
pub fn follows_redirects(follow_redirects: Option<bool>) -> (follows: bool)
    ensures
        follows == (follow_redirects != Some(false)),
{
    match follow_redirects {
        Some(follow) => follow,
        None => true,
    }
}

/// `head`, however its letters are cased, is a method that the proxy does not send:
/// the error names it as `HEAD`.
pub proof fn lemma_head_is_unsupported(method: Seq<char>)
    requires
        eq_ignoring_ascii_case(method, "head"@),
    ensures
        is_ascii_text(method),
        method_or_error(ascii_upper_text(method)) == Err::<ProxyMethod, Seq<char>>(
            unsupported_message("HEAD"@),
        ),
{
    reveal_strlit("head");
    reveal_strlit("HEAD");
    reveal_strlit("GET");
    reveal_strlit("POST");
    reveal_strlit("PUT");
    reveal_strlit("DELETE");
    reveal_strlit("PATCH");
    lemma_case_variant_has_same_capitals(method, "head"@);
    let upper = ascii_upper_text("head"@);
    assert(upper =~= "HEAD"@);
    assert(upper.len() == 4 && upper[0] == 'H' && upper[1] == 'E');
    assert("GET"@.len() == 3 && "PUT"@.len() == 3);
    assert("POST"@[0] == 'P');
    assert("DELETE"@.len() == 6 && "PATCH"@.len() == 5);
}

/// `get`, however its letters are cased, is read as `GET`.
pub proof fn lemma_get_is_supported(method: Seq<char>)
    requires
        eq_ignoring_ascii_case(method, "get"@),
    ensures
        is_ascii_text(method),
        method_or_error(ascii_upper_text(method)) == Ok::<ProxyMethod, Seq<char>>(
            ProxyMethod::Get,
        ),
{
    reveal_strlit("get");
    reveal_strlit("GET");
    lemma_case_variant_has_same_capitals(method, "get"@);
    assert(ascii_upper_text("get"@) =~= "GET"@);
}

/// What the proxy reports of a response: the status, the headers as a mapping from
/// name to value, the body as text, the milliseconds that the round trip took and the
/// length of the body in bytes. No header name occurs twice.
#[derive(Debug, Clone, PartialEq)]
pub struct HttpResponse {
    pub status: u16,
    pub headers: Vec<(String, String)>,
    pub body: String,
    pub time: u64,
    pub size: u64,
}

impl HttpResponse {
    /// Puts a report together from the headers as they were received. Of a name that
    /// was received more than once the value received last is kept. `size` is the
    /// length of `body` in UTF-8.
    pub fn new(status: u16, headers: Vec<(String, String)>, body: String, time: u64) -> (response:
        HttpResponse)
        ensures
            response.status == status,
            distinct_names(header_texts(response.headers@)),
            header_map(header_texts(response.headers@)) == header_map(header_texts(headers@)),
            response.body == body,
            response.time == time,
            response.size == encode_utf8(body@).len() as usize,
    {
        let size = body.as_str().len() as u64;
        let headers = keep_last_per_name(&headers);
        HttpResponse { status, headers, body, time, size }
    }
}

} // verus!
