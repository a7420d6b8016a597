//! What holds at the edges: answers to requests, calls of Hyprland's tool, the steps by which its
//! socket is followed, and what the written values carry.

use vstd::prelude::*;
use vstd::utf8::{decode_utf8, valid_utf8};

use crate::codec::{as_value, carries, keys_once, parsed_json, printed_json, written_json};
use crate::hyprctl::{
    call_arguments, first_instance, named_instance, nonblank_output, output_json, output_text,
    InstanceEntry,
};
use crate::json::{viewed, JsonView};
use crate::publish::{window_payloads_text, SharedView};
use crate::request::{delivery_answer, refusal, rooted};
use crate::state::StateView;
use crate::table::{distinct_keys, lemma_first_entry};
use crate::text::trimmed;
use crate::watch::{next_action, WatchAction, WatchEvent};

verus! {

/// A request is refused with 403 just where a token is asked for and the request brings another
/// one, or brings none and the token is not empty; with 400 just where it is not refused so and its
/// payload is no object. The answer names the error. Any other payload goes on.
pub proof fn law_answers(
    expected: Option<Seq<char>>,
    provided: Option<Seq<char>>,
    payload: JsonView,
)
    ensures
        ({
            let wrong = match (expected, provided) {
                (Some(token), Some(given)) => given != token,
                (Some(token), None) => token.len() > 0,
                (None, _) => false,
            };
            if wrong {
                refusal(expected, provided, payload) matches Some(reply) && reply.status == 403
                    && reply.body.field("error"@) == Some(JsonView::Text("invalid token"@))
            } else if !(payload is Object) {
                refusal(expected, provided, payload) matches Some(reply) && reply.status == 400
                    && reply.body.field("error"@) == Some(
                    JsonView::Text("payload must be a JSON object"@),
                )
            } else {
                refusal(expected, provided, payload) is None
            }
        }),
{
    if let Some(token) = expected {
        if token.len() == 0 {
            assert(token =~= Seq::<char>::empty());
        }
    }
    if let Some(reply) = refusal(expected, provided, payload) {
        let fields = reply.body->Object_0;
        lemma_first_entry(fields, "error"@, fields[0].1, 0);
    }
}

/// A payload that was taken is answered with 202 and `ok`, and one that nothing took with 503 and
/// an error.
pub proof fn law_delivery(delivered: bool)
    ensures
        delivered ==> delivery_answer(delivered).status == 202 && delivery_answer(
            delivered,
        ).body.field("ok"@) == Some(JsonView::Bool(true)),
        !delivered ==> delivery_answer(delivered).status == 503 && delivery_answer(
            delivered,
        ).body.field("error"@) == Some(JsonView::Text("bridge unavailable"@)),
{
    let fields = delivery_answer(delivered).body->Object_0;
    lemma_first_entry(fields, fields[0].0, fields[0].1, 0);
}

/// A path that starts with `/` stays as it is, and any other gets `/` in front and nothing else.
pub proof fn law_paths(path: Seq<char>)
    ensures
        rooted(seq!['/'] + path) == seq!['/'] + path,
        path.len() == 0 || path[0] != '/' ==> rooted(path) == seq!['/'] + path,
{
    reveal_strlit("/");
    assert("/"@ =~= seq!['/']);
    assert((seq!['/'] + path)[0] == '/');
}

/// The environment names an instance by any text that is not empty.
pub proof fn law_named_instance(name: Seq<char>)
    ensures
        named_instance(None) is None,
        name.len() > 0 ==> named_instance(Some(name)) == Some(name),
        name.len() == 0 ==> named_instance(Some(name)) is None,
{
}

/// The instance that is found is the first with a socket and a name, and none is where there is no
/// such one.
pub proof fn law_first_instance(entries: Seq<InstanceEntry>)
    ensures
        match first_instance(entries) {
            Some(name) => exists|i: int|
                0 <= i < entries.len() && (#[trigger] entries[i]).has_socket && viewed(
                    entries[i].name,
                ) == Some(name) && forall|j: int|
                    0 <= j < i ==> !((#[trigger] entries[j]).has_socket && entries[j].name is Some),
            None => forall|i: int|
                0 <= i < entries.len() ==> !((#[trigger] entries[i]).has_socket
                    && entries[i].name is Some),
        },
    decreases entries.len(),
{
    if entries.len() > 0 {
        if entries.first().has_socket && entries.first().name is Some {
            assert(entries[0].has_socket);
        } else {
            let rest = entries.drop_first();
            law_first_instance(rest);
            if let Some(name) = first_instance(rest) {
                let i = choose|i: int|
                    0 <= i < rest.len() && (#[trigger] rest[i]).has_socket && viewed(rest[i].name)
                        == Some(name) && forall|j: int|
                        0 <= j < i ==> !((#[trigger] rest[j]).has_socket && rest[j].name is Some);
                assert(entries[i + 1] == rest[i]);
                assert forall|j: int| 0 <= j < i + 1 implies !((#[trigger] entries[j]).has_socket
                    && entries[j].name is Some) by {
                    if j > 0 {
                        assert(entries[j] == rest[j - 1]);
                    }
                }
            } else {
                assert forall|i: int| 0 <= i < entries.len() implies !((
                #[trigger] entries[i]).has_socket && entries[i].name is Some) by {
                    if i > 0 {
                        assert(entries[i] == rest[i - 1]);
                    }
                }
            }
        }
    }
}

/// A call names the instance that was found, behind `-i` and in front of everything else, just
/// where the environment does not name one; the other arguments follow as they are.
pub proof fn law_call_arguments(
    named: bool,
    signature: Option<Seq<char>>,
    arguments: Seq<Seq<char>>,
)
    ensures
        named || signature is None ==> call_arguments(named, signature, arguments) == arguments,
        !named ==> (signature matches Some(name) ==> {
            let given = call_arguments(named, signature, arguments);
            &&& given.len() == arguments.len() + 2
            &&& given[0] == "-i"@
            &&& given[1] == name
            &&& given.skip(2) == arguments
        }),
{
    if let Some(name) = signature {
        assert((seq!["-i"@, name] + arguments).skip(2) =~= arguments);
    }
}

/// The output of a command counts just where the command succeeded and wrote UTF-8: without the
/// white space around it, as JSON where it is that, and as text where it is not blank.
pub proof fn law_output(success: bool, stdout: Seq<u8>)
    ensures
        !success || !valid_utf8(stdout) ==> output_text(success, stdout) is None && output_json(
            success,
            stdout,
        ) is None && nonblank_output(success, stdout) is None,
        success && valid_utf8(stdout) ==> {
            let text = trimmed(decode_utf8(stdout));
            &&& output_text(success, stdout) == Some(text)
            &&& output_json(success, stdout) == parsed_json(text)
            &&& text.len() > 0 ==> nonblank_output(success, stdout) == Some(text)
            &&& text.len() == 0 ==> nonblank_output(success, stdout) is None
        },
{
}

/// The socket is looked for, connected to, and read line by line. Without a socket there is a rest
/// of two seconds, after a failure or an end one of a second, and after a rest the socket is looked
/// for again.
pub proof fn law_watch_cycle(event: WatchEvent)
    ensures
        event is SocketMissing ==> next_action(event) == (WatchAction::Rest { seconds: 2 }),
        event is ConnectFailed || event is StreamEnded ==> next_action(event) == (
        WatchAction::Rest { seconds: 1 }),
        event is SocketFound ==> next_action(event) is Connect,
        event is Connected || event is Line ==> next_action(event) is ReadLine,
        event is Rested ==> next_action(event) is LocateSocket,
{
}

/// A line that is read is an event. Anything else that happens changes nothing of what is known but
/// whether the event stream is connected: it is once the socket is connected, and is not once that
/// failed or the stream ended.
pub proof fn law_watched(state: StateView, event: WatchEvent)
    ensures
        event matches WatchEvent::Line { text, now } ==> state.watched(event) == state.after_event(
            text@,
            now@,
        ),
        !(event is Line) ==> state.watched(event) == (StateView {
            event_stream_connected: if event is Connected {
                true
            } else if event is ConnectFailed || event is StreamEnded {
                false
            } else {
                state.event_stream_connected
            },
            ..state
        }),
{
}

/// A value carries a text, a truth value, an integer and `null` as they are, and an array item by
/// item.
pub proof fn law_carried_values(held: JsonView, json: JsonView)
    requires
        carries(held, json),
    ensures
        json is Null || json is Bool || json is Text || (json matches JsonView::Number(n)
            && n is Integer) ==> held == json,
        json matches JsonView::Array(items) ==> (held matches JsonView::Array(others)
            && others.len() == items.len() && forall|i: int|
            0 <= i < items.len() ==> carries(#[trigger] others[i], items[i])),
{
}

/// What is written for a JSON value is the text of the value that carries it, and what is written
/// for the payloads of all windows is the text of the object that has them under their addresses.
pub proof fn law_written_texts(value: JsonView, shared: SharedView, text: Seq<char>)
    ensures
        written_json(value) == printed_json(as_value(value)),
        printed_json(as_value(JsonView::Object(shared.window_payloads))) == Some(text)
            ==> window_payloads_text(shared) == text,
{
}

/// No object has a key twice in a value that has no key twice, nor has any value in it.
pub proof fn law_keys_once(value: JsonView)
    requires
        keys_once(value),
    ensures
        value matches JsonView::Object(fields) ==> distinct_keys(fields) && forall|i: int|
            0 <= i < fields.len() ==> keys_once((#[trigger] fields[i]).1),
        value matches JsonView::Array(items) ==> forall|i: int|
            0 <= i < items.len() ==> keys_once(#[trigger] items[i]),
{
}

} // verus!
