//! The answers to requests that bring a payload.

use vstd::prelude::*;
use vstd::string::*;

use crate::json::{json_object, json_text, push_field, viewed, Json, JsonView};
use crate::text::same_text;

verus! {

/// An answer: its HTTP status and its body.
#[derive(Debug)]
pub struct Reply {
    pub status: u16,
    pub body: Json,
}

/// What a [`Reply`] stands for.
pub ghost struct ReplyView {
    pub status: int,
    pub body: JsonView,
}

impl View for Reply {
    type V = ReplyView;

    open spec fn view(&self) -> ReplyView {
        ReplyView { status: self.status as int, body: self.body@ }
    }
}

/// The answer that names an error.
pub open spec fn error_reply(status: int, message: Seq<char>) -> ReplyView {
    ReplyView { status, body: JsonView::Object(seq![("error"@, JsonView::Text(message))]) }
}

/// The answer to a request that was taken.
pub open spec fn accepted_reply() -> ReplyView {
    ReplyView { status: 202, body: JsonView::Object(seq![("ok"@, JsonView::Bool(true))]) }
}

/// Whether a request may pass: where a token is asked for, it must bring that token, and a request
/// that brings none counts as one with an empty token.
pub open spec fn token_matches(expected: Option<Seq<char>>, provided: Option<Seq<char>>) -> bool {
    match expected {
        Some(token) => token == match provided {
            Some(text) => text,
            None => Seq::empty(),
        },
        None => true,
    }
}

/// The answer to a request that is refused, or `None` for one whose payload goes on.
pub open spec fn refusal(
    expected: Option<Seq<char>>,
    provided: Option<Seq<char>>,
    payload: JsonView,
) -> Option<ReplyView> {
    if !token_matches(expected, provided) {
        Some(error_reply(403, "invalid token"@))
    } else if !(payload is Object) {
        Some(error_reply(400, "payload must be a JSON object"@))
    } else {
        None
    }
}

/// The answer once a payload went on: whether there was anything to take it.
pub open spec fn delivery_answer(delivered: bool) -> ReplyView {
    if delivered {
        accepted_reply()
    } else {
        error_reply(503, "bridge unavailable"@)
    }
}

/// The answer that names an error.
fn error_json(status: u16, message: &str) -> (r: Reply)
    ensures
        r@ == error_reply(status as int, message@),
{
    let mut fields: Vec<(String, Json)> = Vec::new();
    push_field(&mut fields, "error", json_text(message));
    let body = json_object(fields);
    assert(body@->Object_0 =~= seq![("error"@, JsonView::Text(message@))]);
    Reply { status, body }
}

/// Lets the payload of a request through, or answers the request with an error: `expected` is the
/// token that is asked for, `provided` the one that the request brings.
pub fn handle_update(expected: Option<&str>, provided: Option<&str>, payload: Json) -> (r: Result<
    Json,
    Reply,
>)
    ensures
        match r {
            Ok(passed) => passed == payload && refusal(
                viewed(expected),
                viewed(provided),
                payload@,
            ) is None,
            Err(reply) => refusal(viewed(expected), viewed(provided), payload@) == Some(reply@),
        },
{
    if let Some(token) = expected {
        let matches = match provided {
            Some(text) => same_text(text, token),
            None => token.is_empty(),
        };
        assert(matches == token_matches(viewed(expected), viewed(provided))) by {
            if token@.len() == 0 {
                assert(token@ =~= Seq::<char>::empty());
            }
        }
        if !matches {
            return Err(error_json(403, "invalid token"));
        }
    }
    if !payload.is_object() {
        return Err(error_json(400, "payload must be a JSON object"));
    }
    Ok(payload)
}

/// The answer once a payload went on.
pub fn delivery_reply(delivered: bool) -> (r: Reply)
    ensures
        r@ == delivery_answer(delivered),
{
    if delivered {
        let mut fields: Vec<(String, Json)> = Vec::new();
        push_field(&mut fields, "ok", Json::Bool(true));
        let body = json_object(fields);
        assert(body@->Object_0 =~= seq![("ok"@, JsonView::Bool(true))]);
        Reply { status: 202, body }
    } else {
        error_json(503, "bridge unavailable")
    }
}

/// A path that starts with `/`.
pub open spec fn rooted(path: Seq<char>) -> Seq<char> {
    if path.len() > 0 && path.first() == '/' {
        path
    } else {
        "/"@ + path
    }
}

/// The path under which requests are taken: the given one, with `/` in front if it has none.
pub fn route_path(path: &str) -> (r: String)
    ensures
        r@ == rooted(path@),
{
    if !path.is_empty() && path.get_char(0) == '/' {
        path.to_owned()
    } else {
        "/".to_owned().concat(path)
    }
}

/// A refused request is answered with an error: 403 where the token is wrong, whatever the payload
/// is, and 400 where the token is right and the payload is no object. Without a token to ask for,
/// no request is refused for its token, and an object with the right token is never refused.
pub proof fn law_refusals(
    expected: Option<Seq<char>>,
    provided: Option<Seq<char>>,
    payload: JsonView,
)
    ensures
        refusal(expected, provided, payload) matches Some(reply) ==> reply.status == 403
            || reply.status == 400,
        refusal(expected, provided, payload) matches Some(reply) && reply.status == 403
            <==> !token_matches(expected, provided),
        expected is None ==> token_matches(expected, provided),
        expected is Some ==> token_matches(expected, expected),
        token_matches(expected, provided) && payload is Object ==> refusal(
            expected,
            provided,
            payload,
        ) is None,
{
}

/// A path that starts with `/` stays as it is, and every other gets just one in front.
pub proof fn law_rooted(path: Seq<char>)
    ensures
        rooted(path).len() > 0,
        rooted(path).first() == '/',
        rooted(rooted(path)) == rooted(path),
{
    reveal_strlit("/");
}

} // verus!
