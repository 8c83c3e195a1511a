//! Reading the headers of a request.
//!
//! Requests arrive with their headers in an `http::HeaderMap`. The map is kept as it is
//! and read through two calls whose contracts are taken on trust from the `http` crate;
//! everything above them is verified against those contracts.

use vstd::prelude::*;
use http::header::ToStrError;
use http::HeaderMap;
use http::HeaderValue;
use crate::text::ascii_lower;

verus! {

/// The header map of the `http` crate, carried as an opaque value.
#[verifier::external_type_specification]
#[verifier::external_body]
#[verifier::reject_recursive_types(T)]
pub struct ExHeaderMap<T>(HeaderMap<T>);

/// The header value of the `http` crate, carried as an opaque value.
#[verifier::external_type_specification]
#[verifier::external_body]
pub struct ExHeaderValue(HeaderValue);

/// The error of `HeaderValue::to_str`, carried as an opaque value.
#[verifier::external_type_specification]
#[verifier::external_body]
pub struct ExToStrError(ToStrError);

/// What a header map holds, as far as a lookup can tell: for each name stored in it, in
/// the lower-case form in which the map stores names, the bytes of the first value that
/// was stored under that name.
pub uninterp spec fn first_values(headers: HeaderMap<HeaderValue>) -> Map<Seq<char>, Seq<u8>>;

/// The bytes that a header value holds.
pub uninterp spec fn value_bytes(value: HeaderValue) -> Seq<u8>;

/// The characters that a header name may be written with: ASCII letters and digits and
/// the marks ``! " # $ % & ' * + - . ^ _ ` | ~``.
pub open spec fn is_name_char(c: char) -> bool {
    ||| ('a' <= c && c <= 'z')
    ||| ('A' <= c && c <= 'Z')
    ||| ('0' <= c && c <= '9')
    ||| c == '!'
    ||| c == '"'
    ||| c == '#'
    ||| c == '$'
    ||| c == '%'
    ||| c == '&'
    ||| c == '\''
    ||| c == '*'
    ||| c == '+'
    ||| c == '-'
    ||| c == '.'
    ||| c == '^'
    ||| c == '_'
    ||| c == '`'
    ||| c == '|'
    ||| c == '~'
}

/// The longest header name that a lookup accepts.
pub open spec fn max_name_len() -> nat {
    65535
}

/// A text that a lookup accepts as a header name.
pub open spec fn is_header_name(name: Seq<char>) -> bool {
    &&& 0 < name.len() <= max_name_len()
    &&& forall|i: int| 0 <= i < name.len() ==> is_name_char(#[trigger] name[i])
}

/// The form under which a map stores a name: its ASCII letters in lower case.
pub open spec fn stored_name(name: Seq<char>) -> Seq<char> {
    Seq::new(name.len(), |i: int| ascii_lower(name[i]))
}

/// The bytes that can be read as text: printable ASCII, the space and the tab.
pub open spec fn is_visible_byte(b: u8) -> bool {
    (32 <= b && b < 127) || b == 9
}

/// Every byte of the value can be read as text.
pub open spec fn is_visible(bytes: Seq<u8>) -> bool {
    forall|i: int| 0 <= i < bytes.len() ==> is_visible_byte(#[trigger] bytes[i])
}

/// ASCII bytes read as characters.
pub open spec fn bytes_as_text(bytes: Seq<u8>) -> Seq<char> {
    Seq::new(bytes.len(), |i: int| bytes[i] as char)
}

/// The text of the header `name` in `headers`: the first value stored under the name,
/// whatever the case of its letters, where that value can be read as text, and the empty
/// text where the header is missing, the name is no header name or the value holds
/// bytes that are not text.
pub open spec fn header_text_of(headers: HeaderMap<HeaderValue>, name: Seq<char>) -> Seq<char> {
    let values = first_values(headers);
    let key = stored_name(name);
    if is_header_name(name) && values.contains_key(key) && is_visible(values[key]) {
        bytes_as_text(values[key])
    } else {
        Seq::empty()
    }
}

/// Calls `http::HeaderMap::get` with a text for the name.
///
/// Trusted: the call finds a value exactly when the text is a header name (non-empty, at
/// most 65535 characters, each one a name character) and the map stores its lower-case
/// form; the value it returns is the first one stored under that name.
#[verifier::external_body]
fn lookup<'a>(headers: &'a HeaderMap<HeaderValue>, name: &str) -> (found: Option<&'a HeaderValue>)
    ensures
        match found {
            Some(value) => {
                &&& is_header_name(name@)
                &&& first_values(*headers).contains_key(stored_name(name@))
                &&& value_bytes(*value) == first_values(*headers)[stored_name(name@)]
            },
            None => !(is_header_name(name@) && first_values(*headers).contains_key(
                stored_name(name@),
            )),
        },
{
    headers.get(name)
}

/// Calls `http::HeaderValue::to_str`.
///
/// Trusted: the call succeeds exactly when every byte of the value is printable ASCII,
/// a space or a tab, and the text it returns is then those bytes read as characters.
#[verifier::external_body]
fn value_text<'a>(value: &'a HeaderValue) -> (text: Result<&'a str, ToStrError>)
    ensures
        match text {
            Ok(s) => is_visible(value_bytes(*value)) && s@ == bytes_as_text(value_bytes(*value)),
            Err(_) => !is_visible(value_bytes(*value)),
        },
{
    value.to_str()
}

/// The text of the header `name` of a request, and the empty text where there is none
/// to read. A missing header is never an error.
pub fn header_text<'a>(headers: &'a HeaderMap<HeaderValue>, name: &str) -> (text: &'a str)
    ensures
        text@ == header_text_of(*headers, name@),
{
    proof {
        reveal_strlit("");
    }
    match lookup(headers, name) {
        Some(value) => match value_text(value) {
            Ok(text) => text,
            Err(_) => "",
        },
        None => "",
    }
}

/// Header names are read without regard to the case of their ASCII letters: two names
/// that differ only in case name the same header of every request.
pub proof fn lemma_header_name_case_insensitive(
    headers: HeaderMap<HeaderValue>,
    a: Seq<char>,
    b: Seq<char>,
)
    requires
        crate::text::eq_ignoring_ascii_case(a, b),
    ensures
        header_text_of(headers, a) == header_text_of(headers, b),
{
    assert(stored_name(a) =~= stored_name(b));
    assert forall|i: int| 0 <= i < a.len() implies is_name_char(a[i]) == is_name_char(b[i]) by {
        lemma_lower_keeps_name_char(a[i]);
        lemma_lower_keeps_name_char(b[i]);
    }
    if is_header_name(a) {
        assert forall|i: int| 0 <= i < b.len() implies is_name_char(#[trigger] b[i]) by {
            assert(is_name_char(a[i]));
        }
    }
    if is_header_name(b) {
        assert forall|i: int| 0 <= i < a.len() implies is_name_char(#[trigger] a[i]) by {
            assert(is_name_char(b[i]));
        }
    }
}

proof fn lemma_lower_keeps_name_char(c: char)
    ensures
        is_name_char(ascii_lower(c)) == is_name_char(c),
{
}

} // verus!
