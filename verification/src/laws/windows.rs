//! What holds of the windows that Hyprland knows: how they are told apart, reported, refreshed and
//! published.

use vstd::prelude::*;

use crate::client::{
    chrome_class, client_fields, client_of, normalized, optional_rect, ClientView,
};
use crate::context::candidate_object;
use crate::geometry::{hypr_rect, rect_object};
use crate::json::{optional_field, optional_integer, JsonView, NumberView};
use crate::laws::published::lemma_lookup_in_optional;
use crate::laws::texts::{law_has_substring, law_trimmed};
use crate::mapping::{confidence_number, sources_array};
use crate::scoring::CandidateView;
use crate::state::{clients_of, reported_client, reported_clients, AnswersView, StateView};
use crate::table::{
    has_key, lemma_lookup_in_both, lemma_lookup_in_one, lemma_read_after_write, lookup,
};
use crate::text::{lowercase, white_space};

verus! {

/// An address loses the white space around it and gets `0x` in front, unless it starts so already.
/// Of white space alone nothing is left.
pub proof fn law_normalized(before: Seq<char>, bare: Seq<char>, after: Seq<char>)
    requires
        forall|i: int| 0 <= i < before.len() ==> white_space(#[trigger] before[i]),
        forall|i: int| 0 <= i < after.len() ==> white_space(#[trigger] after[i]),
        bare.len() > 0 ==> !white_space(bare.first()) && !white_space(bare.last()),
    ensures
        bare.len() == 0 ==> normalized(before + bare + after).len() == 0,
        bare.len() >= 2 && bare[0] == '0' && bare[1] == 'x' ==> normalized(before + bare + after)
            == bare,
        bare.len() > 0 && !(bare.len() >= 2 && bare[0] == '0' && bare[1] == 'x') ==> normalized(
            before + bare + after,
        ) == seq!['0', 'x'] + bare,
{
    reveal_strlit("0x");
    law_trimmed(before, bare, after);
    assert("0x"@ =~= seq!['0', 'x']);
    if bare.len() >= 2 && bare[0] == '0' && bare[1] == 'x' {
        assert("0x"@ =~= bare.subrange(0, 2));
    } else if bare.len() >= 2 {
        assert(bare.subrange(0, 2)[0] == bare[0]);
        assert(bare.subrange(0, 2)[1] == bare[1]);
        assert("0x"@[0] == '0' && "0x"@[1] == 'x');
    }
}

/// A window belongs to a browser of the Chrome family just where its class, in lower case, has one
/// of the five names as a part.
pub proof fn law_chrome_family(class_name: Seq<char>)
    ensures
        chrome_class(class_name) <==> {
            let lowered = lowercase(class_name);
            ||| exists|before: Seq<char>, after: Seq<char>|
                lowered == #[trigger] (before + "chrome"@ + after)
            ||| exists|before: Seq<char>, after: Seq<char>|
                lowered == #[trigger] (before + "chromium"@ + after)
            ||| exists|before: Seq<char>, after: Seq<char>|
                lowered == #[trigger] (before + "brave"@ + after)
            ||| exists|before: Seq<char>, after: Seq<char>|
                lowered == #[trigger] (before + "edge"@ + after)
            ||| exists|before: Seq<char>, after: Seq<char>|
                lowered == #[trigger] (before + "vivaldi"@ + after)
        },
{
    let lowered = lowercase(class_name);
    law_has_substring(lowered, "chrome"@);
    law_has_substring(lowered, "chromium"@);
    law_has_substring(lowered, "brave"@);
    law_has_substring(lowered, "edge"@);
    law_has_substring(lowered, "vivaldi"@);
}

/// A reported window needs an address that is a text and not blank; then it is known by its address
/// in its one form.
pub proof fn law_reported_address(value: JsonView)
    ensures
        match value.field("address"@) {
            Some(JsonView::Text(raw)) => if normalized(raw).len() > 0 {
                client_of(value) matches Some(client) && client.address == normalized(raw)
            } else {
                client_of(value) is None
            },
            _ => client_of(value) is None,
        },
{
}

/// What is known of a reported window: its class and its title, or the empty text where there is no
/// such text; its process, its workspace and its place in the focus history, where these are
/// integers; and its place.
pub proof fn law_reported_window(value: JsonView, n: i64)
    requires
        client_of(value) is Some,
    ensures
        ({
            let client = client_of(value)->0;
            &&& match value.field("class"@) {
                Some(JsonView::Text(text)) => client.class_name == text,
                _ => client.class_name.len() == 0,
            }
            &&& match value.field("title"@) {
                Some(JsonView::Text(text)) => client.title == text,
                _ => client.title.len() == 0,
            }
            &&& client.pid == Some(n) <==> value.field("pid"@) == Some(
                JsonView::Number(NumberView::Integer(n as int)),
            )
            &&& client.workspace_id == Some(n) <==> (value.field("workspace"@) is Some
                && value.field("workspace"@)->0.field("id"@) == Some(
                JsonView::Number(NumberView::Integer(n as int)),
            ))
            &&& client.focus_history_id == Some(n) <==> value.field("focusHistoryID"@) == Some(
                JsonView::Number(NumberView::Integer(n as int)),
            )
            &&& client.rect == hypr_rect(value)
        }),
{
}

/// Of a list of reports each is taken in turn: a report with an address sets what is known under
/// it, and any other report changes nothing.
pub proof fn law_listed_windows(items: Seq<JsonView>, item: JsonView, address: Seq<char>)
    ensures
        clients_of(Seq::empty()).len() == 0,
        lookup(clients_of(items.push(item)), address) == match client_of(item) {
            Some(client) => if client.address == address {
                Some(client)
            } else {
                lookup(clients_of(items), address)
            },
            None => lookup(clients_of(items), address),
        },
{
    assert(items.push(item).drop_last() =~= items);
    if let Some(client) = client_of(item) {
        lemma_read_after_write(clients_of(items), client.address, client, address);
        lemma_read_after_write(clients_of(items), client.address, client, client.address);
    }
}

/// After Hyprland was asked: the window that it reports as the active one is the active one,
/// whatever was before, and is known as it was reported. Where it reports none, the window that was
/// active stays so if it is still known.
pub proof fn law_asked_active(state: StateView, answers: AnswersView, raw: Seq<char>)
    ensures
        ({
            let after = state.asked(Some(answers));
            match answers.active {
                Some(value) => match client_of(value) {
                    Some(client) => after.active_address == Some(client.address) && lookup(
                        after.clients,
                        client.address,
                    ) == Some(client),
                    None => stays_active(state, after),
                },
                None => stays_active(state, after),
            }
        }),
        answers.active is Some && answers.active->0.field("address"@) == Some(JsonView::Text(raw))
            && normalized(raw).len() > 0 ==> state.asked(Some(answers)).active_address == Some(
            normalized(raw),
        ),
{
    if let Some(client) = reported_client(answers.active) {
        let known = match reported_clients(answers.clients) {
            Some(listed) => listed,
            None => state.clients,
        };
        lemma_read_after_write(known, client.address, client, client.address);
    }
}

/// The active window is the one that was active if it is known now, and else there is none.
pub open spec fn stays_active(before: StateView, after: StateView) -> bool {
    match before.active_address {
        Some(address) => after.active_address == (if has_key(after.clients, address) {
            Some(address)
        } else {
            None
        }),
        None => after.active_address is None,
    }
}

/// After Hyprland was asked: every window but the reported active one is known as the list has it,
/// and where there is no list, as before. The time is noted, and what is known of events stays.
pub proof fn law_asked_windows(state: StateView, answers: AnswersView, address: Seq<char>)
    requires
        !(answers.active matches Some(value) && client_of(value) matches Some(client)
            && client.address == address),
    ensures
        ({
            let after = state.asked(Some(answers));
            &&& match answers.clients {
                Some(JsonView::Array(items)) => lookup(after.clients, address) == lookup(
                    clients_of(items),
                    address,
                ),
                _ => lookup(after.clients, address) == lookup(state.clients, address),
            }
            &&& after.last_checked_at == Some(answers.checked_at)
            &&& after.event_stream_connected == state.event_stream_connected
            &&& after.last_event == state.last_event
            &&& after.last_event_at == state.last_event_at
        }),
{
    if let Some(client) = reported_client(answers.active) {
        let known = match reported_clients(answers.clients) {
            Some(listed) => listed,
            None => state.clients,
        };
        lemma_read_after_write(known, client.address, client, address);
    }
}

/// What a consumer finds of a published window: its address, its class and its title, what is known
/// of its process, its workspace and its place in the focus history, and its place.
pub proof fn law_published_client(client: ClientView)
    ensures
        ({
            let window = JsonView::Object(client_fields(client));
            &&& window.field("address"@) == Some(JsonView::Text(client.address))
            &&& window.field("class"@) == Some(JsonView::Text(client.class_name))
            &&& window.field("title"@) == Some(JsonView::Text(client.title))
            &&& window.field("pid"@) == match client.pid {
                Some(n) => Some(JsonView::Number(NumberView::Integer(n as int))),
                None => None,
            }
            &&& window.field("workspace_id"@) == match client.workspace_id {
                Some(n) => Some(JsonView::Number(NumberView::Integer(n as int))),
                None => None,
            }
            &&& window.field("focus_history_id"@) == match client.focus_history_id {
                Some(n) => Some(JsonView::Number(NumberView::Integer(n as int))),
                None => None,
            }
            &&& window.field("bounds"@) == match client.rect {
                Some(rect) => Some(rect_object(rect)),
                None => None,
            }
        }),
{
    lemma_client_lookups(client, "address"@);
    lemma_client_lookups(client, "class"@);
    lemma_client_lookups(client, "title"@);
    lemma_client_lookups(client, "pid"@);
    lemma_client_lookups(client, "workspace_id"@);
    lemma_client_lookups(client, "focus_history_id"@);
    lemma_client_lookups(client, "bounds"@);
    lemma_client_key_lengths();
}

proof fn lemma_client_key_lengths()
    ensures
        "address"@.len() == 7,
        "class"@.len() == 5,
        "title"@.len() == 5,
        "class"@[0] == 'c',
        "title"@[0] == 't',
        "pid"@.len() == 3,
        "workspace_id"@.len() == 12,
        "focus_history_id"@.len() == 16,
        "bounds"@.len() == 6,
        "confidence"@.len() == 10,
        "sources"@.len() == 7,
        "address"@[0] == 'a',
        "sources"@[0] == 's',
{
    reveal_strlit("address");
    reveal_strlit("class");
    reveal_strlit("title");
    reveal_strlit("pid");
    reveal_strlit("workspace_id");
    reveal_strlit("focus_history_id");
    reveal_strlit("bounds");
    reveal_strlit("confidence");
    reveal_strlit("sources");
}

proof fn lemma_client_lookups(client: ClientView, key: Seq<char>)
    ensures
        lookup(client_fields(client), key) == if key == "address"@ {
            Some(JsonView::Text(client.address))
        } else if key == "class"@ {
            Some(JsonView::Text(client.class_name))
        } else if key == "title"@ {
            Some(JsonView::Text(client.title))
        } else if key == "pid"@ {
            optional_integer(client.pid)
        } else if key == "workspace_id"@ {
            optional_integer(client.workspace_id)
        } else if key == "focus_history_id"@ {
            optional_integer(client.focus_history_id)
        } else if key == "bounds"@ {
            optional_rect(client.rect)
        } else {
            None
        },
{
    lemma_client_key_lengths();
    let address = seq![("address"@, JsonView::Text(client.address))];
    let class = seq![("class"@, JsonView::Text(client.class_name))];
    let title = seq![("title"@, JsonView::Text(client.title))];
    let pid = optional_field("pid"@, optional_integer(client.pid));
    let workspace = optional_field("workspace_id"@, optional_integer(client.workspace_id));
    let history = optional_field("focus_history_id"@, optional_integer(client.focus_history_id));
    let bounds = optional_field("bounds"@, optional_rect(client.rect));
    lemma_lookup_in_one("address"@, JsonView::Text(client.address));
    lemma_lookup_in_one("class"@, JsonView::Text(client.class_name));
    lemma_lookup_in_one("title"@, JsonView::Text(client.title));
    lemma_lookup_in_optional("pid"@, optional_integer(client.pid));
    lemma_lookup_in_optional("workspace_id"@, optional_integer(client.workspace_id));
    lemma_lookup_in_optional("focus_history_id"@, optional_integer(client.focus_history_id));
    lemma_lookup_in_optional("bounds"@, optional_rect(client.rect));
    lemma_lookup_in_both(address, class);
    lemma_lookup_in_both(address + class, title);
    let first = address + class + title;
    assert(first =~= seq![
        ("address"@, JsonView::Text(client.address)),
        ("class"@, JsonView::Text(client.class_name)),
        ("title"@, JsonView::Text(client.title)),
    ]);
    lemma_lookup_in_both(first, pid);
    lemma_lookup_in_both(first + pid, workspace);
    lemma_lookup_in_both(first + pid + workspace, history);
    lemma_lookup_in_both(first + pid + workspace + history, bounds);
    assert(client_fields(client) == first + pid + workspace + history + bounds);
}

/// What a consumer finds of a published candidate: all that is published of the window, how sure it
/// is, and the names of what speaks for it, in their order.
pub proof fn law_published_candidate(candidate: CandidateView, key: Seq<char>)
    ensures
        candidate_object(candidate).field("confidence"@) == Some(
            confidence_number(candidate.confidence),
        ),
        candidate_object(candidate).field("sources"@) == Some(sources_array(candidate.sources)),
        key != "confidence"@ && key != "sources"@ ==> candidate_object(candidate).field(key)
            == JsonView::Object(client_fields(candidate.client)).field(key),
{
    lemma_client_key_lengths();
    let fields = client_fields(candidate.client);
    let confidence = ("confidence"@, confidence_number(candidate.confidence));
    let sources = ("sources"@, sources_array(candidate.sources));
    lemma_client_lookups(candidate.client, "confidence"@);
    lemma_client_lookups(candidate.client, "sources"@);
    lemma_lookup_in_one("confidence"@, confidence.1);
    lemma_lookup_in_one("sources"@, sources.1);
    lemma_lookup_in_both(seq![confidence], seq![sources]);
    assert(seq![confidence] + seq![sources] =~= seq![confidence, sources]);
    lemma_lookup_in_both(fields, seq![confidence, sources]);
}

/// The published names of what speaks for a window are those names as texts, in their order.
pub proof fn law_published_sources(sources: Seq<Seq<char>>)
    ensures
        sources_array(sources) matches JsonView::Array(items) && items.len() == sources.len()
            && forall|i: int|
            0 <= i < sources.len() ==> #[trigger] items[i] == JsonView::Text(sources[i]),
{
}

} // verus!
