//! What holds of what is published.

use vstd::prelude::*;

use crate::client::{client_fields, optional_rect, ClientView};
use crate::codec::{carries, law_carried_fields};
use crate::context::{
    active_window, backends, candidate_object, hyprland_available, hyprland_fields, matches_field,
    optional_x11, top_candidates, wm_fields, SurroundingsView,
};
use crate::enrich::{
    as_object, bridge_object, enriched, mappings_after, payload_candidates, published_mapping,
    tab_title,
};
use crate::json::{absent, integer_json, optional_field, optional_integer, optional_text, JsonView};
use crate::laws::events::under_own_addresses;
use crate::mapping::{confidence_number, mapping_object, pruned, sources_array, MappingView};
use crate::publish::{mapped_window_id, signals_for, SharedView, SignalView};
use crate::scoring::CandidateView;
use crate::state::StateView;
use crate::table::{
    distinct_keys, first_position, lemma_first_entry, lemma_lookup_has_key, lemma_lookup_in_both,
    lemma_lookup_in_one, lemma_read_after_write,
    lemma_write_keeps_keys_distinct, lookup, with_entry,
};

verus! {

/// A payload goes out as an object with two fields set: what is known of the window managers, and
/// what the bridge says of itself. Every other field is as it came, and a payload that is no object
/// is found in the field `raw`.
pub proof fn law_enriched_fields(
    payload: JsonView,
    state: StateView,
    window_map: Seq<(Seq<char>, MappingView)>,
    surroundings: SurroundingsView,
    received_at: Seq<char>,
    key: Seq<char>,
)
    ensures
        ({
            let r = enriched(payload, state, window_map, surroundings, received_at);
            let live = pruned(window_map, state.clients);
            &&& r is Object
            &&& r.field("wm"@) == Some(
                JsonView::Object(
                    wm_fields(
                        tab_title(payload),
                        state,
                        payload_candidates(payload, state, live),
                        surroundings,
                    ),
                ),
            )
            &&& r.field("bridge"@) == Some(
                bridge_object(
                    received_at,
                    published_mapping(payload, state, window_map),
                    mappings_after(payload, state, window_map).len(),
                ),
            )
            &&& key != "wm"@ && key != "bridge"@ && payload is Object ==> r.field(key)
                == payload.field(key)
            &&& !(payload is Object) ==> r.field("raw"@) == Some(payload)
        }),
{
    reveal_strlit("wm");
    reveal_strlit("bridge");
    reveal_strlit("raw");
    let live = pruned(window_map, state.clients);
    let fields = as_object(payload)->Object_0;
    let wm = JsonView::Object(
        wm_fields(
            tab_title(payload),
            state,
            payload_candidates(payload, state, live),
            surroundings,
        ),
    );
    let bridge = bridge_object(
        received_at,
        published_mapping(payload, state, window_map),
        mappings_after(payload, state, window_map).len(),
    );
    let first = with_entry(fields, "wm"@, wm);
    lemma_read_after_write(fields, "wm"@, wm, key);
    lemma_read_after_write(fields, "wm"@, wm, "raw"@);
    lemma_read_after_write(first, "bridge"@, bridge, key);
    lemma_read_after_write(first, "bridge"@, bridge, "wm"@);
    lemma_read_after_write(first, "bridge"@, bridge, "raw"@);
    assert("wm"@.len() == 2 && "bridge"@.len() == 6 && "raw"@.len() == 3);
    if !(payload is Object) {
        lemma_first_entry(fields, "raw"@, payload, 0);
    }
}

/// What a consumer finds in the published mapping: the backend, the address, how sure it is, and
/// what speaks for it.
pub proof fn law_mapping_fields(mapping: MappingView)
    ensures
        mapping_object(mapping).text_field("backend"@) == Some("hyprland"@),
        mapping_object(mapping).text_field("window_id"@) == Some(mapping.address),
        mapping_object(mapping).field("confidence"@) == Some(
            confidence_number(mapping.confidence),
        ),
        mapping_object(mapping).field("sources"@) == Some(sources_array(mapping.sources)),
{
    reveal_strlit("backend");
    reveal_strlit("window_id");
    reveal_strlit("confidence");
    reveal_strlit("sources");
    let fields = mapping_object(mapping)->Object_0;
    assert("backend"@.len() == 7 && "sources"@.len() == 7);
    assert("backend"@[0] != "sources"@[0]);
    assert("window_id"@.len() == 9 && "confidence"@.len() == 10);
    lemma_first_entry(fields, "backend"@, JsonView::Null, 0);
    lemma_first_entry(fields, "window_id"@, JsonView::Null, 1);
    lemma_first_entry(fields, "confidence"@, JsonView::Null, 2);
    lemma_first_entry(fields, "sources"@, JsonView::Null, 3);
}

/// The Hyprland window that a payload that goes out names is the one that its Chrome window is
/// taken to be; it names none where there is no such window. It also names the form that payloads
/// have, and how many mappings are known.
pub proof fn law_published_window(
    payload: JsonView,
    state: StateView,
    window_map: Seq<(Seq<char>, MappingView)>,
    surroundings: SurroundingsView,
    received_at: Seq<char>,
)
    ensures
        ({
            let r = enriched(payload, state, window_map, surroundings, received_at);
            let bridge = r.field("bridge"@)->0;
            &&& mapped_window_id(r) == match published_mapping(payload, state, window_map) {
                Some(mapping) => Some(mapping.address),
                None => None,
            }
            &&& bridge.field("mapped_window"@) == Some(
                match published_mapping(payload, state, window_map) {
                    Some(mapping) => mapping_object(mapping),
                    None => JsonView::Null,
                },
            )
            &&& bridge.text_field("schema"@) == Some("org.imalison.chrome_window_info.v1"@)
            &&& bridge.text_field("received_at"@) == Some(received_at)
            &&& bridge.field("known_chrome_window_mappings"@) == Some(
                integer_json(mappings_after(payload, state, window_map).len() as int),
            )
        }),
{
    law_enriched_fields(payload, state, window_map, surroundings, received_at, Seq::empty());
    reveal_strlit("received_at");
    reveal_strlit("schema");
    reveal_strlit("mapped_window");
    reveal_strlit("known_chrome_window_mappings");
    assert("received_at"@.len() == 11 && "schema"@.len() == 6 && "mapped_window"@.len() == 13
        && "known_chrome_window_mappings"@.len() == 28);
    let bridge = bridge_object(
        received_at,
        published_mapping(payload, state, window_map),
        mappings_after(payload, state, window_map).len(),
    );
    let fields = bridge->Object_0;
    lemma_first_entry(fields, "received_at"@, JsonView::Null, 0);
    lemma_first_entry(fields, "schema"@, JsonView::Null, 1);
    lemma_first_entry(fields, "mapped_window"@, JsonView::Null, 2);
    lemma_first_entry(fields, "known_chrome_window_mappings"@, JsonView::Null, 3);
    if let Some(mapping) = published_mapping(payload, state, window_map) {
        law_mapping_fields(mapping);
    }
}

/// Once a payload is published, its text is the last one, and it is the last payload of the window
/// that it names. The payloads of all other windows, and the name of the form, stay.
pub proof fn law_publishing(
    shared: SharedView,
    payload: JsonView,
    payload_text: Seq<char>,
    other: Seq<char>,
)
    ensures
        ({
            let after = shared.after_payload(payload, payload_text);
            &&& after.last_payload == payload_text
            &&& after.schema == shared.schema
            &&& mapped_window_id(payload) matches Some(window_id) ==> lookup(
                after.window_payloads,
                window_id,
            ) == Some(payload)
            &&& mapped_window_id(payload) != Some(other) ==> lookup(after.window_payloads, other)
                == lookup(shared.window_payloads, other)
        }),
{
    if let Some(window_id) = mapped_window_id(payload) {
        lemma_read_after_write(shared.window_payloads, window_id, payload, other);
    }
}

/// Every payload is signalled to all once, and before that, where its window is known, once with
/// that window's address. Both signals carry the payload's text.
pub proof fn law_signals(payload: JsonView, payload_text: Seq<char>)
    ensures
        signals_for(payload, payload_text).last() == (SignalView::Updated {
            payload: payload_text,
        }),
        mapped_window_id(payload) is None ==> signals_for(payload, payload_text).len() == 1,
        mapped_window_id(payload) matches Some(window_id) ==> signals_for(
            payload,
            payload_text,
        ).len() == 2 && signals_for(payload, payload_text)[0] == (SignalView::WindowUpdated {
            window_id,
            payload: payload_text,
        }),
{
}

/// The candidates that are published are the best ones, at most five, in their order.
pub proof fn law_published_candidates(candidates: Seq<CandidateView>)
    ensures
        top_candidates(candidates).len() <= 5,
        candidates.len() <= 5 ==> top_candidates(candidates).len() == candidates.len(),
        candidates.len() > 5 ==> top_candidates(candidates).len() == 5,
        forall|i: int|
            0 <= i < top_candidates(candidates).len() ==> #[trigger] top_candidates(candidates)[i]
                == candidate_object(candidates[i]),
{
}

/// A field with a new key leaves every key alone.
proof fn lemma_distinct_with_new_field(
    fields: Seq<(Seq<char>, JsonView)>,
    key: Seq<char>,
    value: Option<JsonView>,
)
    requires
        distinct_keys(fields),
        absent(fields, key),
    ensures
        distinct_keys(fields + optional_field(key, value)),
        forall|other: Seq<char>| #[trigger]
            absent(fields, other) && other != key ==> absent(
                fields + optional_field(key, value),
                other,
            ),
{
}

/// The keys of a published window, each once.
proof fn lemma_client_keys(client: ClientView)
    ensures
        distinct_keys(client_fields(client)),
        absent(client_fields(client), "confidence"@),
        absent(client_fields(client), "sources"@),
{
    reveal_strlit("address");
    reveal_strlit("class");
    reveal_strlit("title");
    reveal_strlit("pid");
    reveal_strlit("workspace_id");
    reveal_strlit("focus_history_id");
    reveal_strlit("bounds");
    reveal_strlit("confidence");
    reveal_strlit("sources");
    assert("address"@.len() == 7);
    assert("class"@.len() == 5);
    assert("title"@.len() == 5);
    assert("pid"@.len() == 3);
    assert("workspace_id"@.len() == 12);
    assert("focus_history_id"@.len() == 16);
    assert("bounds"@.len() == 6);
    assert("confidence"@.len() == 10);
    assert("sources"@.len() == 7);
    assert("address"@[0] == 'a' && "sources"@[0] == 's');
    let first = seq![
        ("address"@, JsonView::Text(client.address)),
        ("class"@, JsonView::Text(client.class_name)),
        ("title"@, JsonView::Text(client.title)),
    ];
    assert("class"@[0] == 'c' && "title"@[0] == 't');
    assert(distinct_keys(first));
    assert(absent(first, "pid"@));
    assert(absent(first, "workspace_id"@));
    assert(absent(first, "focus_history_id"@));
    assert(absent(first, "bounds"@));
    assert(absent(first, "confidence"@));
    assert(absent(first, "sources"@));
    lemma_distinct_with_new_field(first, "pid"@, optional_integer(client.pid));
    let second = first + optional_field("pid"@, optional_integer(client.pid));
    lemma_distinct_with_new_field(
        second,
        "workspace_id"@,
        optional_integer(client.workspace_id),
    );
    let third = second + optional_field("workspace_id"@, optional_integer(client.workspace_id));
    lemma_distinct_with_new_field(
        third,
        "focus_history_id"@,
        optional_integer(client.focus_history_id),
    );
    let fourth = third + optional_field(
        "focus_history_id"@,
        optional_integer(client.focus_history_id),
    );
    lemma_distinct_with_new_field(fourth, "bounds"@, optional_rect(client.rect));
}

/// The keys of what is published of Hyprland, each once.
proof fn lemma_hyprland_keys(
    title: Seq<char>,
    state: StateView,
    candidates: Seq<CandidateView>,
)
    ensures
        distinct_keys(hyprland_fields(title, state, candidates)),
        absent(hyprland_fields(title, state, candidates), "checked_at"@),
        absent(hyprland_fields(title, state, candidates), "x11_active"@),
        absent(hyprland_fields(title, state, candidates), "available_backends"@),
{
    reveal_strlit("hyprland_event_stream_connected");
    reveal_strlit("hyprland_last_event");
    reveal_strlit("hyprland_last_event_at");
    reveal_strlit("hyprland_last_checked_at");
    reveal_strlit("hyprland_active");
    reveal_strlit("hyprland_title_matches");
    reveal_strlit("hyprland_candidates");
    reveal_strlit("checked_at");
    reveal_strlit("x11_active");
    reveal_strlit("available_backends");
    assert("hyprland_event_stream_connected"@.len() == 31);
    assert("hyprland_last_event"@.len() == 19);
    assert("hyprland_last_event_at"@.len() == 22);
    assert("hyprland_last_checked_at"@.len() == 24);
    assert("hyprland_active"@.len() == 15);
    assert("hyprland_title_matches"@.len() == 22);
    assert("hyprland_candidates"@.len() == 19);
    assert("checked_at"@.len() == 10);
    assert("x11_active"@.len() == 10);
    assert("available_backends"@.len() == 18);
    assert("hyprland_last_event"@[9] == 'l' && "hyprland_candidates"@[9] == 'c');
    assert("hyprland_last_event_at"@[9] == 'l' && "hyprland_title_matches"@[9] == 't');
    let first = seq![
        ("hyprland_event_stream_connected"@, JsonView::Bool(state.event_stream_connected)),
    ];
    assert(distinct_keys(first));
    assert(absent(first, "hyprland_last_event"@));
    assert(absent(first, "hyprland_last_event_at"@));
    assert(absent(first, "hyprland_last_checked_at"@));
    assert(absent(first, "hyprland_active"@));
    assert(absent(first, "hyprland_title_matches"@));
    assert(absent(first, "hyprland_candidates"@));
    assert(absent(first, "checked_at"@));
    assert(absent(first, "x11_active"@));
    assert(absent(first, "available_backends"@));
    lemma_distinct_with_new_field(first, "hyprland_last_event"@, optional_text(state.last_event));
    let second = first + optional_field("hyprland_last_event"@, optional_text(state.last_event));
    lemma_distinct_with_new_field(
        second,
        "hyprland_last_event_at"@,
        optional_text(state.last_event_at),
    );
    let third = second + optional_field(
        "hyprland_last_event_at"@,
        optional_text(state.last_event_at),
    );
    lemma_distinct_with_new_field(
        third,
        "hyprland_last_checked_at"@,
        optional_text(state.last_checked_at),
    );
    let fourth = third + optional_field(
        "hyprland_last_checked_at"@,
        optional_text(state.last_checked_at),
    );
    lemma_distinct_with_new_field(fourth, "hyprland_active"@, active_window(state));
    let fifth = fourth + optional_field("hyprland_active"@, active_window(state));
    lemma_distinct_with_new_field(
        fifth,
        "hyprland_title_matches"@,
        matches_field(title, state.clients),
    );
    let sixth = fifth + optional_field(
        "hyprland_title_matches"@,
        matches_field(title, state.clients),
    );
    let listed = JsonView::Array(top_candidates(candidates));
    lemma_distinct_with_new_field(sixth, "hyprland_candidates"@, Some(listed));
    assert(hyprland_fields(title, state, candidates) == sixth + optional_field(
        "hyprland_candidates"@,
        Some(listed),
    ));
}

/// The keys of what is published of the window managers, each once.
proof fn lemma_wm_keys(
    title: Seq<char>,
    state: StateView,
    candidates: Seq<CandidateView>,
    surroundings: SurroundingsView,
)
    ensures
        distinct_keys(wm_fields(title, state, candidates, surroundings)),
{
    reveal_strlit("checked_at");
    reveal_strlit("x11_active");
    reveal_strlit("available_backends");
    assert("checked_at"@[0] == 'c' && "x11_active"@[0] == 'x');
    assert("checked_at"@.len() == 10 && "x11_active"@.len() == 10);
    assert("available_backends"@.len() == 18);
    lemma_hyprland_keys(title, state, candidates);
    let first = seq![("checked_at"@, JsonView::Text(surroundings.checked_at))];
    let hyprland = if hyprland_available(state, surroundings) {
        hyprland_fields(title, state, candidates)
    } else {
        seq![]
    };
    let second = first + hyprland;
    assert(distinct_keys(second));
    assert(absent(second, "x11_active"@));
    assert(absent(second, "available_backends"@));
    let active = if surroundings.xdotool_installed {
        optional_x11(surroundings.x11_active)
    } else {
        None
    };
    lemma_distinct_with_new_field(second, "x11_active"@, active);
    let third = second + optional_field("x11_active"@, active);
    let available = JsonView::Array(backends(state, surroundings));
    lemma_distinct_with_new_field(third, "available_backends"@, Some(available));
    assert(wm_fields(title, state, candidates, surroundings) == third + optional_field(
        "available_backends"@,
        Some(available),
    ));
}

/// In what the bridge publishes no key stands twice: not in a window, a candidate or a mapping,
/// not in what it adds to a payload, and not in the payload as a whole, unless that came with a key
/// twice.
pub proof fn law_published_keys(
    payload: JsonView,
    state: StateView,
    window_map: Seq<(Seq<char>, MappingView)>,
    surroundings: SurroundingsView,
    received_at: Seq<char>,
    candidate: CandidateView,
    mapping: MappingView,
)
    requires
        payload matches JsonView::Object(fields) ==> distinct_keys(fields),
    ensures
        distinct_keys(client_fields(candidate.client)),
        distinct_keys(candidate_object(candidate)->Object_0),
        distinct_keys(mapping_object(mapping)->Object_0),
        ({
            let r = enriched(payload, state, window_map, surroundings, received_at);
            &&& r matches JsonView::Object(fields) && distinct_keys(fields)
            &&& r.field("wm"@) matches Some(JsonView::Object(fields)) && distinct_keys(fields)
            &&& r.field("bridge"@) matches Some(JsonView::Object(fields)) && distinct_keys(fields)
        }),
{
    let r = enriched(payload, state, window_map, surroundings, received_at);
    let live = pruned(window_map, state.clients);
    let candidates = payload_candidates(payload, state, live);
    let known = mappings_after(payload, state, window_map).len();
    let published = published_mapping(payload, state, window_map);
    law_enriched_fields(payload, state, window_map, surroundings, received_at, seq![]);
    lemma_wm_keys(tab_title(payload), state, candidates, surroundings);
    let fields = as_object(payload)->Object_0;
    let wm = JsonView::Object(wm_fields(tab_title(payload), state, candidates, surroundings));
    lemma_write_keeps_keys_distinct(fields, "wm"@, wm);
    lemma_write_keeps_keys_distinct(
        with_entry(fields, "wm"@, wm),
        "bridge"@,
        bridge_object(received_at, published, known),
    );
    assert(distinct_keys(bridge_object(received_at, published, known)->Object_0)) by {
        reveal_strlit("received_at");
        reveal_strlit("schema");
        reveal_strlit("mapped_window");
        reveal_strlit("known_chrome_window_mappings");
        assert("received_at"@.len() == 11 && "schema"@.len() == 6);
        assert("mapped_window"@.len() == 13 && "known_chrome_window_mappings"@.len() == 28);
    }
    assert(distinct_keys(mapping_object(mapping)->Object_0)) by {
        reveal_strlit("backend");
        reveal_strlit("window_id");
        reveal_strlit("confidence");
        reveal_strlit("sources");
        assert("backend"@.len() == 7 && "window_id"@.len() == 9);
        assert("confidence"@.len() == 10 && "sources"@.len() == 7);
        assert("backend"@[0] == 'b' && "sources"@[0] == 's');
    }
    lemma_client_keys(candidate.client);
    assert(distinct_keys(candidate_object(candidate)->Object_0)) by {
        reveal_strlit("confidence");
        reveal_strlit("sources");
        assert("confidence"@.len() == 10 && "sources"@.len() == 7);
    }
}

pub(crate) proof fn lemma_lookup_in_optional(key: Seq<char>, value: Option<JsonView>)
    ensures
        forall|other: Seq<char>|
            #![trigger lookup(optional_field(key, value), other)]
            lookup(optional_field(key, value), other) == if other == key {
                value
            } else {
                None
            },
{
    if let Some(inner) = value {
        lemma_lookup_in_one(key, inner);
    }
}

proof fn lemma_hyprland_lookups(
    title: Seq<char>,
    state: StateView,
    candidates: Seq<CandidateView>,
    key: Seq<char>,
)
    ensures
        lookup(hyprland_fields(title, state, candidates), key) == if key
            == "hyprland_event_stream_connected"@ {
            Some(JsonView::Bool(state.event_stream_connected))
        } else if key == "hyprland_last_event"@ {
            optional_text(state.last_event)
        } else if key == "hyprland_last_event_at"@ {
            optional_text(state.last_event_at)
        } else if key == "hyprland_last_checked_at"@ {
            optional_text(state.last_checked_at)
        } else if key == "hyprland_active"@ {
            active_window(state)
        } else if key == "hyprland_title_matches"@ {
            matches_field(title, state.clients)
        } else if key == "hyprland_candidates"@ {
            Some(JsonView::Array(top_candidates(candidates)))
        } else {
            None
        },
{
    reveal_strlit("hyprland_event_stream_connected");
    reveal_strlit("hyprland_last_event");
    reveal_strlit("hyprland_last_event_at");
    reveal_strlit("hyprland_last_checked_at");
    reveal_strlit("hyprland_active");
    reveal_strlit("hyprland_title_matches");
    reveal_strlit("hyprland_candidates");
    assert("hyprland_event_stream_connected"@.len() == 31);
    assert("hyprland_last_event"@.len() == 19);
    assert("hyprland_last_event_at"@.len() == 22);
    assert("hyprland_last_checked_at"@.len() == 24);
    assert("hyprland_active"@.len() == 15);
    assert("hyprland_title_matches"@.len() == 22);
    assert("hyprland_candidates"@.len() == 19);
    assert("hyprland_last_event"@[9] == 'l' && "hyprland_candidates"@[9] == 'c');
    assert("hyprland_last_event_at"@[9] == 'l' && "hyprland_title_matches"@[9] == 't');
    let connected = JsonView::Bool(state.event_stream_connected);
    let listed = JsonView::Array(top_candidates(candidates));
    let first = seq![("hyprland_event_stream_connected"@, connected)];
    lemma_lookup_in_one("hyprland_event_stream_connected"@, connected);
    let noted = optional_field("hyprland_last_event"@, optional_text(state.last_event));
    let noted_at = optional_field("hyprland_last_event_at"@, optional_text(state.last_event_at));
    let checked = optional_field("hyprland_last_checked_at"@, optional_text(state.last_checked_at));
    let active = optional_field("hyprland_active"@, active_window(state));
    let matching = optional_field("hyprland_title_matches"@, matches_field(title, state.clients));
    lemma_lookup_in_optional("hyprland_last_event"@, optional_text(state.last_event));
    lemma_lookup_in_both(first, noted);
    let second = first + noted;
    lemma_lookup_in_optional("hyprland_last_event_at"@, optional_text(state.last_event_at));
    lemma_lookup_in_both(second, noted_at);
    let third = second + noted_at;
    lemma_lookup_in_optional("hyprland_last_checked_at"@, optional_text(state.last_checked_at));
    lemma_lookup_in_both(third, checked);
    let fourth = third + checked;
    lemma_lookup_in_optional("hyprland_active"@, active_window(state));
    lemma_lookup_in_both(fourth, active);
    let fifth = fourth + active;
    lemma_lookup_in_optional("hyprland_title_matches"@, matches_field(title, state.clients));
    lemma_lookup_in_both(fifth, matching);
    let sixth = fifth + matching;
    lemma_lookup_in_one("hyprland_candidates"@, listed);
    lemma_lookup_in_both(sixth, seq![("hyprland_candidates"@, listed)]);
    assert(hyprland_fields(title, state, candidates) == sixth + seq![
        ("hyprland_candidates"@, listed),
    ]);
}

/// What a consumer finds of the window managers: when they were looked at and which there are; of
/// Hyprland, where there is anything to tell, whether its event stream is connected, its last
/// event, when it was last asked, its active window, the windows with a title like the tab's and
/// the best candidates; and the active window of an X server.
pub proof fn law_wm_fields(
    title: Seq<char>,
    state: StateView,
    candidates: Seq<CandidateView>,
    surroundings: SurroundingsView,
)
    ensures
        ({
            let wm = JsonView::Object(wm_fields(title, state, candidates, surroundings));
            &&& wm.text_field("checked_at"@) == Some(surroundings.checked_at)
            &&& wm.field("available_backends"@) == Some(
                JsonView::Array(backends(state, surroundings)),
            )
            &&& wm.field("x11_active"@) == if surroundings.xdotool_installed {
                optional_x11(surroundings.x11_active)
            } else {
                None
            }
            &&& hyprland_available(state, surroundings) ==> {
                &&& wm.field("hyprland_event_stream_connected"@) == Some(
                    JsonView::Bool(state.event_stream_connected),
                )
                &&& wm.field("hyprland_last_event"@) == optional_text(state.last_event)
                &&& wm.field("hyprland_last_event_at"@) == optional_text(state.last_event_at)
                &&& wm.field("hyprland_last_checked_at"@) == optional_text(state.last_checked_at)
                &&& wm.field("hyprland_active"@) == active_window(state)
                &&& wm.field("hyprland_title_matches"@) == matches_field(title, state.clients)
                &&& wm.field("hyprland_candidates"@) == Some(
                    JsonView::Array(top_candidates(candidates)),
                )
            }
        }),
{
    reveal_strlit("hyprland_event_stream_connected");
    reveal_strlit("hyprland_last_event");
    reveal_strlit("hyprland_last_event_at");
    reveal_strlit("hyprland_last_checked_at");
    reveal_strlit("hyprland_active");
    reveal_strlit("hyprland_title_matches");
    reveal_strlit("hyprland_candidates");
    reveal_strlit("checked_at");
    reveal_strlit("x11_active");
    reveal_strlit("available_backends");
    assert("hyprland_event_stream_connected"@.len() == 31);
    assert("hyprland_last_event"@.len() == 19);
    assert("hyprland_last_event_at"@.len() == 22);
    assert("hyprland_last_checked_at"@.len() == 24);
    assert("hyprland_active"@.len() == 15);
    assert("hyprland_title_matches"@.len() == 22);
    assert("hyprland_candidates"@.len() == 19);
    assert("checked_at"@.len() == 10);
    assert("x11_active"@.len() == 10);
    assert("available_backends"@.len() == 18);
    assert("hyprland_last_event"@[9] == 'l' && "hyprland_candidates"@[9] == 'c');
    assert("hyprland_last_event_at"@[9] == 'l' && "hyprland_title_matches"@[9] == 't');
    assert("checked_at"@[0] == 'c' && "x11_active"@[0] == 'x');
    lemma_hyprland_lookups(title, state, candidates, "hyprland_event_stream_connected"@);
    lemma_hyprland_lookups(title, state, candidates, "hyprland_last_event"@);
    lemma_hyprland_lookups(title, state, candidates, "hyprland_last_event_at"@);
    lemma_hyprland_lookups(title, state, candidates, "hyprland_last_checked_at"@);
    lemma_hyprland_lookups(title, state, candidates, "hyprland_active"@);
    lemma_hyprland_lookups(title, state, candidates, "hyprland_title_matches"@);
    lemma_hyprland_lookups(title, state, candidates, "hyprland_candidates"@);
    lemma_hyprland_lookups(title, state, candidates, "checked_at"@);
    lemma_hyprland_lookups(title, state, candidates, "x11_active"@);
    lemma_hyprland_lookups(title, state, candidates, "available_backends"@);
    let time = JsonView::Text(surroundings.checked_at);
    let first = seq![("checked_at"@, time)];
    let hyprland = if hyprland_available(state, surroundings) {
        hyprland_fields(title, state, candidates)
    } else {
        seq![]
    };
    let active = if surroundings.xdotool_installed {
        optional_x11(surroundings.x11_active)
    } else {
        None
    };
    let x11 = optional_field("x11_active"@, active);
    let available = JsonView::Array(backends(state, surroundings));
    let last = seq![("available_backends"@, available)];
    lemma_lookup_in_one("checked_at"@, time);
    lemma_lookup_in_both(first, hyprland);
    lemma_lookup_in_optional("x11_active"@, active);
    lemma_lookup_in_both(first + hyprland, x11);
    lemma_lookup_in_one("available_backends"@, available);
    lemma_lookup_in_both(first + hyprland + x11, last);
    assert(wm_fields(title, state, candidates, surroundings) == first + hyprland + x11 + last);
}

/// The active window that is published has the address of Hyprland's active window, and none is
/// published where none is active.
pub proof fn law_published_active_window(state: StateView)
    requires
        under_own_addresses(state.clients),
    ensures
        match state.active_address {
            Some(address) => active_window(state) matches Some(window) && window.text_field(
                "address"@,
            ) == Some(address),
            None => active_window(state) is None,
        },
{
    if let Some(address) = state.active_address {
        let named = ("address"@, JsonView::Text(address));
        if let Some(client) = lookup(state.clients, address) {
            lemma_lookup_has_key(state.clients, address);
            let at = first_position(state.clients, address);
            lemma_first_entry(state.clients, address, client, at);
            assert(client_fields(client)[0] == named);
            lemma_first_entry(client_fields(client), "address"@, named.1, 0);
        } else {
            lemma_first_entry(seq![named], "address"@, named.1, 0);
        }
    }
}

/// A field of what a value carries that is no object is not there either.
proof fn lemma_carried_field(held: JsonView, json: JsonView, key: Seq<char>)
    requires
        carries(held, json),
    ensures
        match json.field(key) {
            Some(value) => held.field(key) is Some && carries(held.field(key)->0, value),
            None => held.field(key) is None,
        },
{
    if json is Object {
        law_carried_fields(held, json, key);
    }
}

/// The value whose text a payload is published with names the same Hyprland window as the payload,
/// and has the same fields.
pub proof fn law_written_payload(held: JsonView, payload: JsonView, key: Seq<char>)
    requires
        carries(held, payload),
    ensures
        mapped_window_id(held) == mapped_window_id(payload),
        held.field(key) is Some <==> payload.field(key) is Some,
        held.text_field(key) == payload.text_field(key),
{
    lemma_carried_field(held, payload, key);
    lemma_carried_field(held, payload, "bridge"@);
    if let Some(bridge) = payload.field("bridge"@) {
        let held_bridge = held.field("bridge"@)->0;
        lemma_carried_field(held_bridge, bridge, "mapped_window"@);
        if let Some(mapping) = bridge.field("mapped_window"@) {
            lemma_carried_field(
                held_bridge.field("mapped_window"@)->0,
                mapping,
                "window_id"@,
            );
        }
    }
}

} // verus!
