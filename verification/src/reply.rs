use vstd::prelude::*;
use crate::decimal::{decimal, push_decimal};

verus! {

/// What the display endpoint's reply says, read as plain values: the
/// boolean `has_message`, and the strings `message.content` and
/// `message.kind` (`None` where the member is missing or of another type).
#[derive(Debug)]
pub struct ReplyFields {
    pub has_message: Option<bool>,
    pub content: Option<String>,
    pub kind: Option<String>,
}

/// The view of an optional string.
pub open spec fn opt_view(s: Option<String>) -> Option<Seq<char>> {
    match s {
        Some(t) => Some(t@),
        None => None,
    }
}

/// The view of the fields of a reply.
pub open spec fn fields_view(f: ReplyFields) -> (Option<bool>, Option<Seq<char>>, Option<Seq<char>>) {
    (f.has_message, opt_view(f.content), opt_view(f.kind))
}

/// What serde_json reads from a reply body: when the body is not a JSON
/// document, `Err` with serde_json's error message and the line and column
/// at which it detected the error; else the fields of [`ReplyFields`].
pub uninterp spec fn json_reply(body: Seq<u8>) -> Result<
    (Option<bool>, Option<Seq<char>>, Option<Seq<char>>),
    (Seq<char>, usize, usize),
>;

/// Parses `body` with `serde_json::from_slice` into a `serde_json::Value`
/// and reads `has_message` with `Value::as_bool`, and `message.content` and
/// `message.kind` with `Value::as_str`, indexing with `Value`'s `Index<&str>`
/// (a missing member reads as `null`); a parse error is reported by its
/// message (`Display`), `Error::line` and `Error::column`. Claimed: the
/// result is a function of the body's bytes alone, named [`json_reply`].
/// What serde_json accepts as JSON, and how it words and places an error,
/// is not stated here.
#[verifier::external_body]
fn decode_reply(body: &[u8]) -> (r: Result<ReplyFields, (String, usize, usize)>)
    ensures
        json_reply(body@) == match r {
            Ok(f) => Ok(fields_view(f)),
            Err((text, line, column)) => Err((text@, line, column)),
        },
{
    let json: serde_json::Value = serde_json::from_slice(body)
        .map_err(|e: serde_json::Error| (e.to_string(), e.line(), e.column()))?;
    let message = &json["message"];
    Ok(ReplyFields {
        has_message: json["has_message"].as_bool(),
        content: message["content"].as_str().map(String::from),
        kind: message["kind"].as_str().map(String::from),
    })
}

/// A message received from the server.
#[derive(Debug)]
pub struct Message {
    pub content: String,
    pub kind: String,
    /// Seconds since the Unix epoch when the message was received.
    pub timestamp: i64,
}

/// Why a poll brought no answer.
#[derive(Debug)]
pub enum PollError {
    /// The server answered with an HTTP status other than 200.
    Status(u16),
    /// The reply body is not JSON: serde_json's message, and the line and
    /// column at which it stopped.
    InvalidJson { message: String, line: usize, column: usize },
    /// The request could not be sent or its answer not received, with the
    /// cause that the HTTP client gave.
    Connection(String),
}

/// The text of a poll error: `HTTP ` and the status, serde_json's message,
/// or the connection's cause.
pub open spec fn poll_error_text(e: PollError) -> Seq<char> {
    match e {
        PollError::Status(s) => "HTTP "@ + decimal(s as int),
        PollError::InvalidJson { message, .. } => message@,
        PollError::Connection(cause) => cause@,
    }
}

impl PollError {
    /// The error's text, as it is logged (see [`poll_error_text`]).
    pub fn describe(&self) -> (text: String)
        ensures
            text@ == poll_error_text(*self),
    {
        match self {
            PollError::Status(s) => {
                let mut text = String::from_str("HTTP ");
                push_decimal(&mut text, *s as i64);
                text
            },
            PollError::InvalidJson { message, .. } => message.clone(),
            PollError::Connection(cause) => cause.clone(),
        }
    }
}

/// The HTTP status of a successful reply.
pub const HTTP_OK: u16 = 200;

/// A reply is read only when its status is 200.
pub fn check_status(status: u16) -> (r: Result<(), PollError>)
    ensures
        status == HTTP_OK ==> r is Ok,
        status != HTTP_OK ==> r == Err::<(), PollError>(PollError::Status(status)),
{
    if status == HTTP_OK {
        Ok(())
    } else {
        Err(PollError::Status(status))
    }
}

/// The timestamp of a message received at `clock` (seconds since the Unix
/// epoch, `None` when the clock is before it): the seconds as an `i64`
/// (wrapping, as `as` does), 0 without a clock.
pub open spec fn timestamp_of(clock: Option<u64>) -> i64 {
    match clock {
        Some(secs) => secs as i64,
        None => 0,
    }
}

/// The message that reply fields carry: present only when `has_message` is
/// `true`; a missing content reads as `?` and a missing kind as `text`.
pub open spec fn reply_message(
    fields: (Option<bool>, Option<Seq<char>>, Option<Seq<char>>),
    clock: Option<u64>,
) -> Option<(Seq<char>, Seq<char>, i64)> {
    if fields.0 == Some(true) {
        Some(
            (
                match fields.1 {
                    Some(c) => c,
                    None => "?"@,
                },
                match fields.2 {
                    Some(k) => k,
                    None => "text"@,
                },
                timestamp_of(clock),
            ),
        )
    } else {
        None
    }
}

/// What a reply says is read member by member: a message is there exactly
/// when `has_message` is `true`; its content is `message.content` when that
/// is a string, whatever the kind, and its kind is `message.kind` when that
/// is a string, whatever the content; each falls back to its own default
/// (`?`, `text`) alone; the timestamp comes from the clock alone.
pub proof fn lemma_reply_members_independent(
    has: Option<bool>,
    c1: Option<Seq<char>>,
    c2: Option<Seq<char>>,
    k1: Option<Seq<char>>,
    k2: Option<Seq<char>>,
    clock: Option<u64>,
)
    ensures
        reply_message((has, c1, k1), clock) is Some <==> has == Some(true),
        has == Some(true) ==> {
            let m11 = reply_message((has, c1, k1), clock).unwrap();
            let m12 = reply_message((has, c1, k2), clock).unwrap();
            let m21 = reply_message((has, c2, k1), clock).unwrap();
            &&& m11.0 == m12.0
            &&& m11.1 == m21.1
            &&& m11.2 == m12.2 && m11.2 == m21.2 && m11.2 == timestamp_of(clock)
            &&& (c1 matches Some(c) ==> m11.0 == c)
            &&& (k1 matches Some(k) ==> m11.1 == k)
            &&& (c1 is None ==> m11.0 == "?"@)
            &&& (k1 is None ==> m11.1 == "text"@)
        },
{
}

/// The view of an optional message.
pub open spec fn message_view(m: Option<Message>) -> Option<(Seq<char>, Seq<char>, i64)> {
    match m {
        Some(msg) => Some((msg.content@, msg.kind@, msg.timestamp)),
        None => None,
    }
}

/// Reads the message out of the fields of a reply (see [`reply_message`]).
pub fn read_message(fields: ReplyFields, clock: Option<u64>) -> (m: Option<Message>)
    ensures
        message_view(m) == reply_message(fields_view(fields), clock),
{
    match fields.has_message {
        Some(true) => {
            let content = match fields.content {
                Some(c) => c,
                None => String::from_str("?"),
            };
            let kind = match fields.kind {
                Some(k) => k,
                None => String::from_str("text"),
            };
            let timestamp: i64 = match clock {
                Some(secs) => secs as i64,
                None => 0,
            };
            Some(Message { content, kind, timestamp })
        },
        _ => None,
    }
}

/// Reads a reply body: `InvalidJson`, with where serde_json found the
/// error, when it cannot parse the body; else the message the body
/// carries, if any, stamped with `clock`.
pub fn read_reply(body: &[u8], clock: Option<u64>) -> (r: Result<Option<Message>, PollError>)
    ensures
        match json_reply(body@) {
            Err((text, line, column)) => r matches Err(PollError::InvalidJson { message, line: l, column: c })
                && message@ == text && l == line && c == column,
            Ok(f) => r matches Ok(m) && message_view(m) == reply_message(f, clock),
        },
{
    match decode_reply(body) {
        Ok(fields) => Ok(read_message(fields, clock)),
        Err((message, line, column)) => Err(PollError::InvalidJson { message, line, column }),
    }
}

/// Adds what one read of the reply body gave: `None` for a read error,
/// else the bytes read. Returns whether to read on: not after an error or
/// an empty read.
pub fn absorb_read(body: &mut Vec<u8>, chunk: Option<&[u8]>) -> (more: bool)
    ensures
        match chunk {
            None => !more && final(body)@ == old(body)@,
            Some(c) => more == (c@.len() > 0) && final(body)@ == old(body)@ + c@,
        },
{
    match chunk {
        None => false,
        Some(c) => {
            if c.len() == 0 {
                assert(old(body)@ + c@ =~= old(body)@);
                false
            } else {
                body.extend_from_slice(c);
                assert(body@ =~= old(body)@ + c@);
                true
            }
        },
    }
}

} // verus!
