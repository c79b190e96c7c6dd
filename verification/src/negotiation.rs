//! How an envelope is answered: as JSON where the client accepts it, else
//! through the view template of the route and method.

use crate::json::{encode_json, envelope_json};
use crate::negotiated::Responder;
use crate::text::{characters, contains, decimal, lowercased, occurs, write_decimal, write_lowercased};
use vstd::prelude::*;

verus! {

/// The media type of a reply's body.
#[derive(Clone, Copy, Debug, PartialEq, Eq, Structural)]
pub enum ContentType {
    Json,
    Html,
    PlainText,
}

/// A reply: the HTTP status, the media type and the body.
#[derive(Debug, PartialEq, Eq)]
pub struct Reply {
    pub status: u16,
    pub content_type: ContentType,
    pub body: String,
}

/// Why a template could not be rendered.
#[derive(Debug, PartialEq, Eq)]
pub struct RenderFailure {
    pub template_name: Option<String>,
    pub line_no: Option<usize>,
    pub column_no: Option<usize>,
    pub desc: String,
}

/// What answering an envelope takes: nothing more, or the rendering of a
/// template.
#[derive(Debug, PartialEq, Eq)]
pub enum Negotiated {
    /// The reply is ready.
    Ready(Reply),
    /// The envelope is to be rendered through the template of this name.
    Render(String),
}

/// True where the `Accept` header asks for JSON: it is there and holds
/// `application/json`.
pub open spec fn wants_json(accept: Option<Seq<char>>) -> bool {
    match accept {
        Some(accept) => occurs(accept, "application/json"@, false),
        None => false,
    }
}

/// `text` with every `//`, read from the left, made one `/`.
pub open spec fn collapsed(text: Seq<char>) -> Seq<char>
    decreases text.len(),
{
    if text.len() == 0 {
        Seq::empty()
    } else if text.len() >= 2 && text[0] == '/' && text[1] == '/' {
        seq!['/'] + collapsed(text.skip(2))
    } else {
        seq![text[0]] + collapsed(text.skip(1))
    }
}

/// The name of the template of a route and a method: the route's pattern
/// without its first character, a slash, and the method in lower case, with
/// no slash doubled.
pub open spec fn template_key(pattern: Seq<char>, method: Seq<char>) -> Seq<char> {
    collapsed(
        (if pattern.len() > 0 {
            pattern.drop_first()
        } else {
            pattern
        }) + seq!['/'] + lowercased(method),
    )
}

/// The body that reports a failed rendering: the template's name, or `-`,
/// the line and the column, or `0`, and the description.
pub open spec fn failure_text(
    template_name: Option<Seq<char>>,
    line_no: Option<usize>,
    column_no: Option<usize>,
    desc: Seq<char>,
) -> Seq<char> {
    "Error rendering template:\n - Template: "@ + (match template_name {
        Some(name) => name,
        None => "-"@,
    }) + "\n - Line/Col: "@ + decimal(
        match line_no {
            Some(line) => line as nat,
            None => 0,
        },
    ) + "/"@ + decimal(
        match column_no {
            Some(column) => column as nat,
            None => 0,
        },
    ) + "\n - Error: "@ + desc + " "@
}

/// The characters of a header that may be absent.
pub open spec fn header(value: Option<&str>) -> Option<Seq<char>> {
    match value {
        Some(value) => Some(value@),
        None => None,
    }
}

/// True where the `Accept` header asks for JSON.
pub fn accepts_json(accept: Option<&str>) -> (json: bool)
    ensures
        json == wants_json(header(accept)),
{
    match accept {
        Some(accept) => contains(accept, "application/json", false),
        None => false,
    }
}

/// The name of the template of a route and a method.
pub fn template_name(pattern: &str, method: &str) -> (name: String)
    ensures
        name@ == template_key(pattern@, method@),
{
    let route = characters(pattern);
    let mut joined = String::new();
    if route.len() > 0 {
        crate::text::write_characters(&mut joined, &route, 1, route.len());
        assert(joined@ =~= pattern@.drop_first());
    }
    joined.push('/');
    write_lowercased(&mut joined, method);
    let all = characters(joined.as_str());
    let ghost whole = (if pattern@.len() > 0 {
        pattern@.drop_first()
    } else {
        pattern@
    }) + seq!['/'] + lowercased(method@);
    assert(all@ =~= whole);
    let mut name = String::new();
    let mut i: usize = 0;
    assert(all@.skip(0) =~= all@);
    assert(name@ + collapsed(all@) =~= collapsed(all@));
    while i < all.len()
        invariant
            i <= all.len(),
            all@ == whole,
            name@ + collapsed(all@.skip(i as int)) == collapsed(all@),
        decreases all.len() - i,
    {
        let ghost rest = all@.skip(i as int);
        let ghost before = name@;
        if all[i] == '/' && i + 1 < all.len() && all[i + 1] == '/' {
            name.push('/');
            proof {
                assert(rest[0] == '/' && rest[1] == '/');
                assert(rest.skip(2) =~= all@.skip(i + 2));
                assert(name@ + collapsed(all@.skip(i + 2)) =~= before + collapsed(rest));
            }
            i += 2;
        } else {
            name.push(all[i]);
            proof {
                assert(rest[0] == all[i as int]);
                if rest.len() >= 2 {
                    assert(rest[1] == all[i + 1]);
                }
                assert(rest.skip(1) =~= all@.skip(i + 1));
                assert(name@ + collapsed(all@.skip(i + 1)) =~= before + collapsed(rest));
            }
            i += 1;
        }
    }
    assert(name@ + collapsed(all@.skip(i as int)) =~= name@);
    name
}

impl RenderFailure {
    /// The body that reports the failure.
    pub fn message(&self) -> (text: String)
        ensures
            text@ == failure_text(
                match self.template_name {
                    Some(name) => Some(name@),
                    None => None,
                },
                self.line_no,
                self.column_no,
                self.desc@,
            ),
    {
        let mut text = String::from_str("Error rendering template:\n - Template: ");
        match &self.template_name {
            Some(name) => text.append(name.as_str()),
            None => text.append("-"),
        }
        text.append("\n - Line/Col: ");
        let line: usize = match self.line_no {
            Some(line) => line,
            None => 0,
        };
        write_decimal(&mut text, line);
        text.append("/");
        let column: usize = match self.column_no {
            Some(column) => column,
            None => 0,
        };
        write_decimal(&mut text, column);
        text.append("\n - Error: ");
        text.append(self.desc.as_str());
        text.append(" ");
        text
    }
}

impl RenderFailure {
    /// The failure of a request that matched no route, so that no template
    /// can be named for it.
    pub fn no_route() -> (failure: RenderFailure)
        ensures
            failure.template_name is None,
            failure.line_no is None,
            failure.column_no is None,
            failure.desc@ == "no route matched the request"@,
    {
        RenderFailure {
            template_name: None,
            line_no: None,
            column_no: None,
            desc: String::from_str("no route matched the request"),
        }
    }

    /// The failure of a request for which no template engine is registered
    /// to render the template of the given name.
    pub fn no_engine(template_name: String) -> (failure: RenderFailure)
        ensures
            failure.template_name == Some(template_name),
            failure.line_no is None,
            failure.column_no is None,
            failure.desc@ == "no template engine is registered"@,
    {
        RenderFailure {
            template_name: Some(template_name),
            line_no: None,
            column_no: None,
            desc: String::from_str("no template engine is registered"),
        }
    }
}

/// True of the reply that carries an envelope as JSON: status 200 and the
/// envelope's JSON text.
pub open spec fn is_json_reply(reply: Reply, responder: Responder<String>) -> bool {
    &&& reply.status == 200
    &&& reply.content_type == ContentType::Json
    &&& reply.body@ == envelope_json(
        responder.status,
        match responder.payload {
            Some(payload) => Some(payload@),
            None => None,
        },
        responder@.error,
    )
}

/// True of the reply that reports a failed rendering: status 503 and a
/// plain text with the template's name, the line, the column and the
/// description.
pub open spec fn is_failure_reply(reply: Reply, failure: RenderFailure) -> bool {
    &&& reply.status == 503
    &&& reply.content_type == ContentType::PlainText
    &&& reply.body@ == failure_text(
        match failure.template_name {
            Some(name) => Some(name@),
            None => None,
        },
        failure.line_no,
        failure.column_no,
        failure.desc@,
    )
}

/// Decides how an envelope is answered. Where the client accepts JSON the
/// reply is ready, whatever the route: status 200 with the envelope as
/// JSON. Otherwise the envelope is to be rendered through the template of
/// the route's pattern and the method; for a request that matched no
/// route, so that `pattern` is absent, the reply is ready and reports that
/// failure.
pub fn respond_to(
    responder: &Responder<String>,
    accept: Option<&str>,
    pattern: Option<&str>,
    method: &str,
) -> (negotiated: Negotiated)
    ensures
        match negotiated {
            Negotiated::Ready(reply) => if wants_json(header(accept)) {
                is_json_reply(reply, *responder)
            } else {
                pattern is None && reply.status == 503 && reply.content_type
                    == ContentType::PlainText && reply.body@ == failure_text(
                    None,
                    None,
                    None,
                    "no route matched the request"@,
                )
            },
            Negotiated::Render(name) => !wants_json(header(accept)) && pattern is Some && name@
                == template_key(pattern->0@, method@),
        },
{
    if accepts_json(accept) {
        Negotiated::Ready(
            Reply { status: 200, content_type: ContentType::Json, body: encode_json(responder) },
        )
    } else {
        match pattern {
            Some(pattern) => Negotiated::Render(template_name(pattern, method)),
            None => Negotiated::Ready(respond_rendered(Err(RenderFailure::no_route()))),
        }
    }
}

/// The reply to a rendering: the rendered body as HTML with status 200, or
/// status 503 with a plain text that reports the failure.
pub fn respond_rendered(rendered: Result<String, RenderFailure>) -> (reply: Reply)
    ensures
        match rendered {
            Ok(body) => reply == (Reply { status: 200, content_type: ContentType::Html, body }),
            Err(failure) => is_failure_reply(reply, failure),
        },
{
    match rendered {
        Ok(body) => Reply { status: 200, content_type: ContentType::Html, body },
        Err(failure) => Reply {
            status: 503,
            content_type: ContentType::PlainText,
            body: failure.message(),
        },
    }
}

} // verus!
