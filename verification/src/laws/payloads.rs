//! What holds of payloads: what is read in them, what speaks for their windows, and the mapping
//! that they get.

use vstd::prelude::*;

use crate::confidence::hundredths;
use crate::enrich::{
    chrome_window_focused, chrome_window_id, chrome_window_rect, mappings_after,
    payload_candidates, published_mapping, tab_title,
};
use crate::geometry::{chrome_rect, rect_likeness};
use crate::json::{value_name, JsonView};
use crate::laws::mappings::{
    law_prune, law_published_mapping_is_remembered, law_rivals, law_sure_enough,
};
use crate::laws::scores::law_named_evidence;
use crate::mapping::{held_by_stronger, mapping_choice, pruned, MappingView};
use crate::publish::mapped_window_id;
use crate::scoring::{cached_address, candidates_for, Sighting};
use crate::state::StateView;
use crate::table::{distinct_keys, has_key, lookup};

verus! {

/// What is read in a payload: the title of the tab, where it is a text; the id of the Chrome window
/// by its name; that it has the focus just where the payload says `true`; and its place.
pub proof fn law_payload_reading(payload: JsonView)
    ensures
        match payload.field("tab"@) {
            Some(tab) => match tab.field("title"@) {
                Some(JsonView::Text(title)) => tab_title(payload) == title,
                _ => tab_title(payload).len() == 0,
            },
            None => tab_title(payload).len() == 0,
        },
        match payload.field("chrome_window"@) {
            Some(window) => {
                &&& chrome_window_focused(payload) <==> window.field("focused"@) == Some(
                    JsonView::Bool(true),
                )
                &&& chrome_window_rect(payload) == chrome_rect(window)
                &&& match window.field("id"@) {
                    Some(id) => chrome_window_id(payload) == value_name(id),
                    None => chrome_window_id(payload) is None,
                }
            },
            None => {
                &&& !chrome_window_focused(payload)
                &&& chrome_window_rect(payload) is None
                &&& chrome_window_id(payload) is None
            },
        },
{
}

/// The candidates of a payload are those for what is read in it: the title of the tab or the empty
/// text, that the focus is there just where the payload says `true`, the place of the Chrome
/// window, and its id by its name.
pub proof fn law_payload_candidates(
    payload: JsonView,
    state: StateView,
    window_map: Seq<(Seq<char>, MappingView)>,
)
    ensures
        payload_candidates(payload, state, window_map) == candidates_for(
            match payload.field("tab"@) {
                Some(tab) => match tab.field("title"@) {
                    Some(JsonView::Text(title)) => title,
                    _ => Seq::empty(),
                },
                None => Seq::empty(),
            },
            payload.field("chrome_window"@) is Some && payload.field("chrome_window"@)->0.field(
                "focused"@,
            ) == Some(JsonView::Bool(true)),
            match payload.field("chrome_window"@) {
                Some(window) => chrome_rect(window),
                None => None,
            },
            match payload.field("chrome_window"@) {
                Some(window) => match window.field("id"@) {
                    Some(id) => value_name(id),
                    None => None,
                },
                None => None,
            },
            state,
            window_map,
        ),
{
}

/// The focus speaks for a window just where the payload says that the Chrome window has it and the
/// window is Hyprland's active one: a payload that does not say `true` gives no window anything for
/// it.
pub proof fn law_payload_focus(
    payload: JsonView,
    state: StateView,
    window_map: Seq<(Seq<char>, MappingView)>,
    i: int,
)
    requires
        0 <= i < payload_candidates(payload, state, window_map).len(),
    ensures
        payload_candidates(payload, state, window_map)[i].sources.contains(
            "hyprland_active_window"@,
        ) <==> payload.field("chrome_window"@) is Some && payload.field("chrome_window"@)->0.field(
            "focused"@,
        ) == Some(JsonView::Bool(true)) && state.active_address == Some(
            payload_candidates(payload, state, window_map)[i].client.address,
        ),
        !(payload.field("chrome_window"@) is Some && payload.field("chrome_window"@)->0.field(
            "focused"@,
        ) == Some(JsonView::Bool(true))) ==> payload_candidates(payload, state, window_map)
            == payload_candidates(
            payload,
            StateView { active_address: None, ..state },
            window_map,
        ),
{
    law_payload_reading(payload);
    law_named_evidence(
        tab_title(payload),
        chrome_window_focused(payload),
        chrome_window_rect(payload),
        chrome_window_id(payload),
        state,
        window_map,
        i,
    );
    if !chrome_window_focused(payload) {
        lemma_focus_does_not_count(payload, state, window_map);
    }
}

proof fn lemma_focus_does_not_count(
    payload: JsonView,
    state: StateView,
    window_map: Seq<(Seq<char>, MappingView)>,
)
    requires
        !chrome_window_focused(payload),
    ensures
        payload_candidates(payload, state, window_map) == payload_candidates(
            payload,
            StateView { active_address: None, ..state },
            window_map,
        ),
{
    let sighting = Sighting {
        title: tab_title(payload),
        focused: false,
        rect: chrome_window_rect(payload),
        cached: cached_address(window_map, chrome_window_id(payload)),
        active: state.active_address,
    };
    let other = Sighting { active: None, ..sighting };
    assert(sighting.scored(state.clients) =~= other.scored(state.clients));
}

/// The place of the Chrome window speaks for a window just where both places are known and alike.
pub proof fn law_payload_place(
    payload: JsonView,
    state: StateView,
    window_map: Seq<(Seq<char>, MappingView)>,
    i: int,
)
    requires
        0 <= i < payload_candidates(payload, state, window_map).len(),
    ensures
        ({
            let found = payload_candidates(payload, state, window_map)[i];
            found.sources.contains("geometry_match"@) <==> payload.field("chrome_window"@) is Some
                && chrome_rect(payload.field("chrome_window"@)->0) is Some
                && found.client.rect is Some && rect_likeness(
                chrome_rect(payload.field("chrome_window"@)->0)->0,
                found.client.rect->0,
            ) == 100
        }),
{
    law_payload_reading(payload);
    law_named_evidence(
        tab_title(payload),
        chrome_window_focused(payload),
        chrome_window_rect(payload),
        chrome_window_id(payload),
        state,
        window_map,
        i,
    );
}

/// A payload gives its Chrome window the best window that no other Chrome window is surer of, where
/// that is sure enough; else the Chrome window keeps the window that it had, if that is still
/// known. What it then has is what is published.
pub proof fn law_payload_mapping(
    payload: JsonView,
    state: StateView,
    window_map: Seq<(Seq<char>, MappingView)>,
    id: Seq<char>,
    i: int,
)
    requires
        distinct_keys(window_map),
        chrome_window_id(payload) == Some(id),
    ensures
        ({
            let live = pruned(window_map, state.clients);
            let candidates = payload_candidates(payload, state, live);
            let published = published_mapping(payload, state, window_map);
            let first = 0 <= i < candidates.len() && !held_by_stronger(live, id, candidates[i])
                && (forall|j: int|
                0 <= j < i ==> held_by_stronger(live, id, #[trigger] candidates[j]));
            let had = lookup(window_map, id) is Some && has_key(
                state.clients,
                lookup(window_map, id)->0.address,
            );
            let kept = had && lookup(window_map, id)->0.address == candidates[i].client.address;
            &&& published == lookup(mappings_after(payload, state, window_map), id)
            &&& first && (candidates[i].confidence >= hundredths(45) || (kept
                && candidates[i].confidence >= hundredths(25))) ==> published == Some(
                MappingView {
                    address: candidates[i].client.address,
                    confidence: candidates[i].confidence,
                    sources: candidates[i].sources,
                },
            )
            &&& first && !(candidates[i].confidence >= hundredths(45) || (kept
                && candidates[i].confidence >= hundredths(25))) ==> published == (if had {
                lookup(window_map, id)
            } else {
                None
            })
            &&& (forall|j: int|
                0 <= j < candidates.len() ==> held_by_stronger(live, id, #[trigger] candidates[j]))
                ==> published == (if had {
                lookup(window_map, id)
            } else {
                None
            })
        }),
{
    let live = pruned(window_map, state.clients);
    let candidates = payload_candidates(payload, state, live);
    law_published_mapping_is_remembered(payload, state, window_map);
    law_prune(window_map, state.clients, id);
    law_sure_enough(candidates, live, id, i);
}

/// A payload leaves the mappings of other Chrome windows as they are, but for those to windows that
/// are gone and those to the window that it gives its Chrome window, where they are less sure.
pub proof fn law_other_mappings(
    payload: JsonView,
    state: StateView,
    window_map: Seq<(Seq<char>, MappingView)>,
    other: Seq<char>,
)
    requires
        distinct_keys(window_map),
        chrome_window_id(payload) != Some(other),
    ensures
        ({
            let live = pruned(window_map, state.clients);
            let given = mapping_choice(
                chrome_window_id(payload),
                payload_candidates(payload, state, live),
                live,
            );
            let after = lookup(mappings_after(payload, state, window_map), other);
            match lookup(window_map, other) {
                Some(held) => if !has_key(state.clients, held.address) || (given is Some
                    && given->0.address == held.address && given->0.confidence > held.confidence) {
                    after is None
                } else {
                    after == Some(held)
                },
                None => after is None,
            }
        }),
        ({
            let live = pruned(window_map, state.clients);
            mapping_choice(
                chrome_window_id(payload),
                payload_candidates(payload, state, live),
                live,
            ) matches Some(mapping) ==> published_mapping(payload, state, window_map) == Some(
                mapping,
            )
        }),
{
    let live = pruned(window_map, state.clients);
    law_prune(window_map, state.clients, other);
    if let Some(id) = chrome_window_id(payload) {
        law_rivals(id, payload_candidates(payload, state, live), live, other);
    }
}

/// A payload whose Chrome window has no id gets no mapping.
pub proof fn law_nameless_payload(
    payload: JsonView,
    state: StateView,
    window_map: Seq<(Seq<char>, MappingView)>,
)
    requires
        chrome_window_id(payload) is None,
    ensures
        published_mapping(payload, state, window_map) is None,
        mappings_after(payload, state, window_map) == pruned(window_map, state.clients),
{
}

/// The window that a payload names: the text under `window_id` of what is mapped, as the bridge
/// says it.
pub proof fn law_named_window(payload: JsonView, window_id: Seq<char>)
    ensures
        mapped_window_id(payload) == Some(window_id) <==> payload.field("bridge"@) is Some
            && payload.field("bridge"@)->0.field("mapped_window"@) is Some && payload.field(
            "bridge"@,
        )->0.field("mapped_window"@)->0.field("window_id"@) == Some(JsonView::Text(window_id)),
{
}

} // verus!
