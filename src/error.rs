use vstd::prelude::*;
use vstd::string::StringExecFns;
use crate::text::{digit_char, push_str};

verus! {

/// The three ways a request can fail.
#[derive(Debug, PartialEq, Eq)]
pub enum ApiError {
    NotFound,
    BadRequest(String),
    InternalError(String),
}

/// A lowercase hexadecimal digit.
pub open spec fn hex_digit(d: nat) -> char {
    if d < 10 {
        digit_char(d)
    } else {
        ((d + 87) as u8) as char
    }
}

/// How one character stands inside a JSON string: quote, backslash and the
/// control characters are escaped, short forms where JSON has them.
pub open spec fn json_escaped(c: char) -> Seq<char> {
    let u = c as u32;
    if c == '"' {
        seq!['\\', '"']
    } else if c == '\\' {
        seq!['\\', '\\']
    } else if u == 8 {
        seq!['\\', 'b']
    } else if u == 9 {
        seq!['\\', 't']
    } else if u == 10 {
        seq!['\\', 'n']
    } else if u == 12 {
        seq!['\\', 'f']
    } else if u == 13 {
        seq!['\\', 'r']
    } else if u < 32 {
        seq!['\\', 'u', '0', '0', hex_digit((u / 16) as nat), hex_digit((u % 16) as nat)]
    } else {
        seq![c]
    }
}

/// Every character of `s` in its JSON form.
pub open spec fn json_escape_all(s: Seq<char>) -> Seq<char>
    decreases s.len(),
{
    if s.len() == 0 {
        Seq::empty()
    } else {
        json_escape_all(s.drop_last()) + json_escaped(s.last())
    }
}

/// The JSON string literal of `s`, quotes included.
pub open spec fn json_string_literal(s: Seq<char>) -> Seq<char> {
    seq!['"'] + json_escape_all(s) + seq!['"']
}

/// Relies on serde_json's compact `Display` of `Value::String`: the text in
/// quotes, with quote, backslash and control characters escaped
/// (`\b \t \n \f \r`, else `\u00xx` in lowercase hex).
#[verifier::external_body]
fn json_quote(s: &str) -> (r: String)
    ensures
        r@ == json_string_literal(s@),
{
    serde_json::Value::from(s).to_string()
}

pub open spec fn not_found_text() -> Seq<char> {
    "No resources could be found."@
}

pub open spec fn bad_request_prefix() -> Seq<char> {
    "There is something wrong with your request: "@
}

pub open spec fn internal_error_prefix() -> Seq<char> {
    "Something went wrong. Probably not your fault: "@
}

/// `{"error":` followed by an encoded message and `}`.
pub open spec fn error_body_text(encoded: Seq<char>) -> Seq<char> {
    "{\"error\":"@ + encoded + "}"@
}

impl ApiError {
    /// A request error whose detail is `detail`.
    pub open spec fn is_bad_request(&self, detail: Seq<char>) -> bool {
        self is BadRequest && self->BadRequest_0@ == detail
    }

    /// A local failure whose detail is `detail`.
    pub open spec fn is_internal(&self, detail: Seq<char>) -> bool {
        self is InternalError && self->InternalError_0@ == detail
    }

    pub open spec fn status_spec(&self) -> u16 {
        match self {
            ApiError::NotFound => 404,
            ApiError::BadRequest(_) => 400,
            ApiError::InternalError(_) => 500,
        }
    }

    /// The human-readable message: a category prefix, then the detail.
    pub open spec fn message_spec(&self) -> Seq<char> {
        match self {
            ApiError::NotFound => not_found_text(),
            ApiError::BadRequest(m) => bad_request_prefix() + m@,
            ApiError::InternalError(m) => internal_error_prefix() + m@,
        }
    }

    /// The HTTP status code of the error.
    pub fn status_code(&self) -> (r: u16)
        ensures
            r == self.status_spec(),
    {
        match self {
            ApiError::NotFound => 404,
            ApiError::BadRequest(_) => 400,
            ApiError::InternalError(_) => 500,
        }
    }

    pub fn message(&self) -> (r: String)
        ensures
            r@ == self.message_spec(),
    {
        match self {
            ApiError::NotFound => String::from_str("No resources could be found."),
            ApiError::BadRequest(m) => {
                let mut s = String::from_str("There is something wrong with your request: ");
                push_str(&mut s, m.as_str());
                s
            },
            ApiError::InternalError(m) => {
                let mut s = String::from_str("Something went wrong. Probably not your fault: ");
                push_str(&mut s, m.as_str());
                s
            },
        }
    }

    /// The JSON body sent with the error.
    pub fn body(&self) -> (r: String)
        ensures
            r@ == error_body_text(json_string_literal(self.message_spec())),
    {
        let m = self.message();
        let encoded = json_quote(m.as_str());
        error_body(encoded.as_str())
    }
}

/// Wraps an already encoded JSON string as the error body.
pub fn error_body(encoded: &str) -> (r: String)
    ensures
        r@ == error_body_text(encoded@),
{
    let mut s = String::from_str("{\"error\":");
    push_str(&mut s, encoded);
    push_str(&mut s, "}");
    s
}

/// A request error with the given detail.
pub fn bad_request(detail: &str) -> (r: ApiError)
    ensures
        r is BadRequest,
        r->BadRequest_0@ == detail@,
{
    ApiError::BadRequest(String::from_str(detail))
}

} // verus!

verus! {

/// A local failure with the given detail.
pub fn internal_error(detail: &str) -> (r: ApiError)
    ensures
        r is InternalError,
        r->InternalError_0@ == detail@,
{
    ApiError::InternalError(String::from_str(detail))
}

/// A local failure described by a fixed context and the underlying cause.
pub fn internal_error_with(context: &str, cause: &str) -> (r: ApiError)
    ensures
        r is InternalError,
        r->InternalError_0@ == context@ + cause@,
{
    let mut s = String::from_str(context);
    push_str(&mut s, cause);
    ApiError::InternalError(s)
}

/// A request error described by a fixed context and the underlying cause.
pub fn bad_request_with(context: &str, cause: &str) -> (r: ApiError)
    ensures
        r is BadRequest,
        r->BadRequest_0@ == context@ + cause@,
{
    let mut s = String::from_str(context);
    push_str(&mut s, cause);
    ApiError::BadRequest(s)
}

} // verus!
