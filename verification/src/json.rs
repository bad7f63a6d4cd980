//! The error body on the wire: `{"error": <string>, "status": <integer>}`.

use vstd::prelude::*;
use vstd::string::*;
use crate::error::{ErrorBody, LuminaError};

verus! {

/// The JSON string literal, quotes included, that `serde_json::to_string`
/// writes for `text`.
pub uninterp spec fn json_string_literal(text: Seq<char>) -> Seq<char>;

/// The error type of the JSON library, carried through unread.
#[verifier::external_type_specification]
#[verifier::external_body]
pub struct ExJsonError(serde_json::Error);

/// Calls `serde_json::to_string` on a string slice.
///
/// Trusted: the call succeeds, and the text that comes back depends on the
/// argument alone and is given the name `json_string_literal`. It succeeds
/// because a string is written byte by byte into a vector in memory: the
/// serializer can fail there only through its writer, and that writer does
/// not fail.
#[verifier::external_body]
fn quote(text: &str) -> (quoted: Result<String, serde_json::Error>)
    ensures
        quoted is Ok,
        quoted matches Ok(q) ==> q@ == json_string_literal(text@),
{
    serde_json::to_string(text)
}

/// The character of a decimal digit.
pub open spec fn digit(d: nat) -> char
    recommends
        d < 10,
{
    if d == 0 {
        '0'
    } else if d == 1 {
        '1'
    } else if d == 2 {
        '2'
    } else if d == 3 {
        '3'
    } else if d == 4 {
        '4'
    } else if d == 5 {
        '5'
    } else if d == 6 {
        '6'
    } else if d == 7 {
        '7'
    } else if d == 8 {
        '8'
    } else {
        '9'
    }
}

/// A number in decimal, without sign or leading zeros.
pub open spec fn decimal(n: nat) -> Seq<char>
    decreases n,
{
    if n < 10 {
        seq![digit(n)]
    } else {
        decimal(n / 10).push(digit(n % 10))
    }
}

/// The error body as JSON text, given the message as a JSON string literal.
pub open spec fn body_text(quoted_error: Seq<char>, status: u16) -> Seq<char> {
    "{\"error\":"@ + quoted_error + ",\"status\":"@ + decimal(status as nat) + "}"@
}

fn digit_text(d: u16) -> (text: &'static str)
    requires
        d < 10,
    ensures
        text@ == seq![digit(d as nat)],
{
    proof {
        reveal_strlit("0");
        reveal_strlit("1");
        reveal_strlit("2");
        reveal_strlit("3");
        reveal_strlit("4");
        reveal_strlit("5");
        reveal_strlit("6");
        reveal_strlit("7");
        reveal_strlit("8");
        reveal_strlit("9");
    }
    let text = if d == 0 {
        "0"
    } else if d == 1 {
        "1"
    } else if d == 2 {
        "2"
    } else if d == 3 {
        "3"
    } else if d == 4 {
        "4"
    } else if d == 5 {
        "5"
    } else if d == 6 {
        "6"
    } else if d == 7 {
        "7"
    } else if d == 8 {
        "8"
    } else {
        "9"
    };
    assert(text@ =~= seq![digit(d as nat)]);
    text
}

/// Appends `n` in decimal to `out`.
pub fn push_decimal(out: &mut String, n: u16)
    ensures
        final(out)@ == old(out)@ + decimal(n as nat),
    decreases n,
{
    if n >= 10 {
        push_decimal(out, n / 10);
    }
    out.append(digit_text(n % 10));
    assert(out@ =~= old(out)@ + decimal(n as nat));
}

/// Frames the error body around a message that already is a JSON string
/// literal.
pub fn frame_error_body(quoted_error: &str, status: u16) -> (text: String)
    ensures
        text@ == body_text(quoted_error@, status),
{
    let mut text = String::from_str("{\"error\":");
    text.append(quoted_error);
    text.append(",\"status\":");
    push_decimal(&mut text, status);
    text.append("}");
    text
}

/// Writes the error body as JSON.
///
/// The message is quoted by the JSON library and the body framed around it.
/// Every body can be written: the result is `Ok` for every message and
/// every status.
pub fn error_body_json(body: &ErrorBody) -> (written: Result<String, LuminaError>)
    ensures
        written is Ok,
        written matches Ok(text) ==> text@ == body_text(
            json_string_literal(body.error@),
            body.status,
        ),
{
    match quote(body.error.as_str()) {
        Ok(quoted) => Ok(frame_error_body(quoted.as_str(), body.status)),
        Err(_) => Err(
            LuminaError::ResponseBuildFailure(String::from_str("error body not serializable")),
        ),
    }
}

} // verus!
