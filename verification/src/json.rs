//! The envelope as JSON text.
//!
//! The payload travels as JSON text that is taken as it is; the envelope
//! puts the frame around it: an object with the members `status`, `payload`
//! and `error`, in this order and no other.

use crate::negotiated::{Responder, ResponderError, ResponderErrorView, ResponderStatus};
use crate::text::{characters, digit, occurs_at, stands_at, write_characters};
use vstd::prelude::*;

verus! {

/// A number below sixteen as a hexadecimal digit, in lower case.
pub open spec fn hex_digit(n: nat) -> char {
    if n < 10 {
        digit(n)
    } else {
        (('a' as u8) + ((n - 10) as u8)) as char
    }
}

/// How a character stands inside a JSON string: the quote, the backslash
/// and the control characters are escaped, all others stand for themselves.
pub open spec fn escape(c: char) -> Seq<char> {
    if c == '"' {
        seq!['\\', '"']
    } else if c == '\\' {
        seq!['\\', '\\']
    } else if c == '\u{08}' {
        seq!['\\', 'b']
    } else if c == '\u{0c}' {
        seq!['\\', 'f']
    } else if c == '\n' {
        seq!['\\', 'n']
    } else if c == '\r' {
        seq!['\\', 'r']
    } else if c == '\t' {
        seq!['\\', 't']
    } else if (c as u32) < 32 {
        seq!['\\', 'u', '0', '0', hex_digit((c as nat) / 16), hex_digit((c as nat) % 16)]
    } else {
        seq![c]
    }
}

/// The characters of `text`, each as it stands inside a JSON string.
pub open spec fn escaped(text: Seq<char>) -> Seq<char>
    decreases text.len(),
{
    if text.len() == 0 {
        Seq::empty()
    } else {
        escaped(text.drop_last()) + escape(text.last())
    }
}

/// `text` as a JSON string.
pub open spec fn json_string(text: Seq<char>) -> Seq<char> {
    seq!['"'] + escaped(text) + seq!['"']
}

/// A status as JSON: its name as a string.
pub open spec fn status_json(status: ResponderStatus) -> Seq<char> {
    match status {
        ResponderStatus::Success => "\"Success\""@,
        ResponderStatus::Error => "\"Error\""@,
    }
}

/// An error as JSON: `null` where there is none, else an object with the
/// members `id` and `message`.
pub open spec fn error_json(error: Option<ResponderErrorView>) -> Seq<char> {
    match error {
        None => "null"@,
        Some(error) => "{\"id\":"@ + json_string(error.id) + ",\"message\":"@ + json_string(
            error.message,
        ) + "}"@,
    }
}

/// What stands before the payload in an envelope of the given status.
pub open spec fn frame_head(status: ResponderStatus) -> Seq<char> {
    "{\"status\":"@ + status_json(status) + ",\"payload\":"@
}

/// What stands after the payload in an envelope with the given error text.
pub open spec fn frame_tail(error: Seq<char>) -> Seq<char> {
    ",\"error\":"@ + error + "}"@
}

/// The envelope as JSON: one object with exactly the members `status`,
/// `payload` and `error`. An absent payload is `null`.
pub open spec fn envelope_json(
    status: ResponderStatus,
    payload: Option<Seq<char>>,
    error: Option<ResponderErrorView>,
) -> Seq<char> {
    frame_head(status) + (match payload {
        Some(payload) => payload,
        None => "null"@,
    }) + frame_tail(error_json(error))
}

fn hex(n: u8) -> (c: char)
    requires
        n < 16,
    ensures
        c == hex_digit(n as nat),
{
    if n < 10 {
        (('0' as u8) + n) as char
    } else {
        (('a' as u8) + (n - 10)) as char
    }
}

fn write_escape(out: &mut String, c: char)
    ensures
        final(out)@ == old(out)@ + escape(c),
{
    if c == '"' {
        out.push('\\');
        out.push('"');
        assert(out@ =~= old(out)@ + seq!['\\', '"']);
    } else if c == '\\' {
        out.push('\\');
        out.push('\\');
        assert(out@ =~= old(out)@ + seq!['\\', '\\']);
    } else if c == '\u{08}' {
        out.push('\\');
        out.push('b');
        assert(out@ =~= old(out)@ + seq!['\\', 'b']);
    } else if c == '\u{0c}' {
        out.push('\\');
        out.push('f');
        assert(out@ =~= old(out)@ + seq!['\\', 'f']);
    } else if c == '\n' {
        out.push('\\');
        out.push('n');
        assert(out@ =~= old(out)@ + seq!['\\', 'n']);
    } else if c == '\r' {
        out.push('\\');
        out.push('r');
        assert(out@ =~= old(out)@ + seq!['\\', 'r']);
    } else if c == '\t' {
        out.push('\\');
        out.push('t');
        assert(out@ =~= old(out)@ + seq!['\\', 't']);
    } else if (c as u32) < 32 {
        let code: u8 = c as u8;
        let high = hex(code / 16);
        let low = hex(code % 16);
        out.push('\\');
        out.push('u');
        out.push('0');
        out.push('0');
        out.push(high);
        out.push(low);
        assert(out@ =~= old(out)@ + seq!['\\', 'u', '0', '0', high, low]);
    } else {
        out.push(c);
        assert(out@ =~= old(out)@ + seq![c]);
    }
}

fn write_escaped(out: &mut String, text: &str)
    ensures
        final(out)@ == old(out)@ + escaped(text@),
{
    let chars = characters(text);
    let mut i: usize = 0;
    assert(out@ =~= old(out)@ + escaped(text@.take(0)));
    while i < chars.len()
        invariant
            i <= chars.len(),
            chars@ == text@,
            out@ == old(out)@ + escaped(text@.take(i as int)),
        decreases chars.len() - i,
    {
        write_escape(out, chars[i]);
        proof {
            let upto = text@.take(i + 1);
            assert(upto.drop_last() =~= text@.take(i as int));
            assert(upto.last() == chars[i as int]);
            assert(out@ =~= old(out)@ + escaped(upto));
        }
        i += 1;
    }
    assert(text@.take(i as int) =~= text@);
}

fn write_json_string(out: &mut String, text: &str)
    ensures
        final(out)@ == old(out)@ + json_string(text@),
{
    out.push('"');
    write_escaped(out, text);
    out.push('"');
    assert(out@ =~= old(out)@ + json_string(text@));
}

fn write_error(out: &mut String, error: &Option<ResponderError>)
    ensures
        final(out)@ == old(out)@ + error_json(
            match *error {
                Some(error) => Some(error@),
                None => None,
            },
        ),
{
    match error {
        None => out.append("null"),
        Some(error) => {
            let mut text = String::from_str("{\"id\":");
            write_json_string(&mut text, error.id.as_str());
            text.append(",\"message\":");
            write_json_string(&mut text, error.message.as_str());
            text.append("}");
            out.append(text.as_str());
        },
    }
}

fn write_frame_head(out: &mut String, status: ResponderStatus)
    ensures
        final(out)@ == old(out)@ + frame_head(status),
{
    let mut head = String::from_str("{\"status\":");
    match status {
        ResponderStatus::Success => head.append("\"Success\""),
        ResponderStatus::Error => head.append("\"Error\""),
    }
    head.append(",\"payload\":");
    out.append(head.as_str());
}

fn write_frame_tail(out: &mut String, error: &str)
    ensures
        final(out)@ == old(out)@ + frame_tail(error@),
{
    let mut tail = String::from_str(",\"error\":");
    tail.append(error);
    tail.append("}");
    out.append(tail.as_str());
}

/// The envelope as JSON text. The payload is JSON text already and goes
/// into the frame as it is.
pub fn encode_json(responder: &Responder<String>) -> (text: String)
    ensures
        text@ == envelope_json(
            responder.status,
            match responder.payload {
                Some(payload) => Some(payload@),
                None => None,
            },
            responder@.error,
        ),
{
    let mut text = String::new();
    write_frame_head(&mut text, responder.status);
    match &responder.payload {
        Some(payload) => text.append(payload.as_str()),
        None => text.append("null"),
    }
    let mut error = String::new();
    write_error(&mut error, &responder.error);
    write_frame_tail(&mut text, error.as_str());
    proof {
        let written = error_json(responder@.error);
        assert(error@ =~= written);
        assert(text@ =~= envelope_json(
            responder.status,
            match responder.payload {
                Some(payload) => Some(payload@),
                None => None,
            },
            responder@.error,
        ));
    }
    text
}

/// The members of an envelope read back from JSON text: the status, and the
/// payload and the error as the JSON text they were written with.
#[derive(Debug, PartialEq, Eq)]
pub struct Decoded {
    pub status: ResponderStatus,
    pub payload: String,
    pub error: String,
}

/// The mathematical value of [`Decoded`].
pub ghost struct DecodedView {
    pub status: ResponderStatus,
    pub payload: Seq<char>,
    pub error: Seq<char>,
}

impl View for Decoded {
    type V = DecodedView;

    open spec fn view(&self) -> DecodedView {
        DecodedView { status: self.status, payload: self.payload@, error: self.error@ }
    }
}

/// What stands in `text` between `head` and `tail`, where `text` starts
/// with the one and ends with the other without the two overlapping.
pub open spec fn framed(text: Seq<char>, head: Seq<char>, tail: Seq<char>) -> Option<Seq<char>> {
    if head.len() + tail.len() <= text.len() && occurs_at(text, head, 0, false) && occurs_at(
        text,
        tail,
        text.len() - tail.len(),
        false,
    ) {
        Some(text.subrange(head.len() as int, text.len() - tail.len()))
    } else {
        None
    }
}

/// What stands before the error in an envelope that reports a failure.
pub open spec fn failure_head() -> Seq<char> {
    frame_head(ResponderStatus::Error) + "null"@ + ",\"error\":"@
}

/// The members of an envelope that was framed as [`envelope_json`] frames a
/// well-formed one: success with a payload and the error `null`, or a
/// failure with the payload `null` and an error. Nothing for any other
/// text.
pub open spec fn decoded(text: Seq<char>) -> Option<DecodedView> {
    match framed(text, frame_head(ResponderStatus::Success), frame_tail("null"@)) {
        Some(payload) => Some(
            DecodedView { status: ResponderStatus::Success, payload, error: "null"@ },
        ),
        None => match framed(text, failure_head(), "}"@) {
            Some(error) => Some(
                DecodedView { status: ResponderStatus::Error, payload: "null"@, error },
            ),
            None => None,
        },
    }
}

fn unframe(text: &Vec<char>, head: &str, tail: &str) -> (inner: Option<String>)
    ensures
        match framed(text@, head@, tail@) {
            Some(between) => inner matches Some(found) && found@ == between,
            None => inner is None,
        },
{
    let head = characters(head);
    let tail = characters(tail);
    if head.len() > text.len() || tail.len() > text.len() - head.len() {
        return None;
    }
    let end: usize = text.len() - tail.len();
    if stands_at(text, &head, 0, false) && stands_at(text, &tail, end, false) {
        let mut inner = String::new();
        write_characters(&mut inner, text, head.len(), end);
        assert(inner@ =~= text@.subrange(head.len() as int, end as int));
        Some(inner)
    } else {
        None
    }
}

/// Reads the members of an envelope back from JSON text.
pub fn decode_json(text: &str) -> (members: Option<Decoded>)
    ensures
        match decoded(text@) {
            Some(view) => members matches Some(found) && found@ == view,
            None => members is None,
        },
{
    let chars = characters(text);
    let mut success_head = String::new();
    write_frame_head(&mut success_head, ResponderStatus::Success);
    let mut success_tail = String::new();
    write_frame_tail(&mut success_tail, "null");
    assert(success_head@ =~= frame_head(ResponderStatus::Success));
    assert(success_tail@ =~= frame_tail("null"@));
    match unframe(&chars, success_head.as_str(), success_tail.as_str()) {
        Some(payload) => Some(
            Decoded {
                status: ResponderStatus::Success,
                payload,
                error: String::from_str("null"),
            },
        ),
        None => {
            let mut head = String::new();
            write_frame_head(&mut head, ResponderStatus::Error);
            head.append("null");
            head.append(",\"error\":");
            assert(head@ =~= failure_head());
            match unframe(&chars, head.as_str(), "}") {
                Some(error) => Some(
                    Decoded {
                        status: ResponderStatus::Error,
                        payload: String::from_str("null"),
                        error,
                    },
                ),
                None => None,
            }
        },
    }
}

/// A success envelope survives the way through JSON: whatever text the
/// payload is, reading the encoded envelope back gives the status
/// `Success`, the error `null` and the payload as it was.
pub proof fn lemma_success_round_trip(payload: Seq<char>)
    ensures
        decoded(envelope_json(ResponderStatus::Success, Some(payload), None)) == Some(
            DecodedView { status: ResponderStatus::Success, payload, error: "null"@ },
        ),
{
    let head = frame_head(ResponderStatus::Success);
    let tail = frame_tail("null"@);
    let text = envelope_json(ResponderStatus::Success, Some(payload), None);
    assert(text =~= head + payload + tail);
    assert(occurs_at(text, head, 0, false));
    assert(occurs_at(text, tail, text.len() - tail.len(), false));
    assert(text.subrange(head.len() as int, text.len() - tail.len()) =~= payload);
}

} // verus!
