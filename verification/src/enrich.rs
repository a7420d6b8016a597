//! Payloads with what is known of the windows added.

use vstd::prelude::*;

use crate::client::text_or_empty;
use crate::context::{build_wm_context, wm_fields, Surroundings, SurroundingsView};
use crate::geometry::{chrome_rect, rect_from_chrome_window, Rect};
use crate::json::{
    integer_json, json_object, json_text, push_field, value_name, value_to_string, viewed, Json,
    JsonView, Number,
};
use crate::mapping::{
    cached_mapping_json, known_mapping, mapping_choice, optional_mapping,
    prune_stale_window_mappings, pruned, update_mapping_from_candidates, updated_map, MappingView,
    WindowMapping,
};
use crate::scoring::{candidates_for, score_hyprland_candidates, CandidateView};
use crate::state::{HyprlandState, StateView};
use crate::table::{distinct_keys, TextMap};

verus! {

/// The name of the form that payloads have.
pub const DEFAULT_SCHEMA: &'static str = "org.imalison.chrome_window_info.v1";

/// The title of the active tab, or the empty text.
pub open spec fn tab_title(payload: JsonView) -> Seq<char> {
    match payload.field("tab"@) {
        Some(tab) => text_or_empty(tab, "title"@),
        None => Seq::empty(),
    }
}

/// What Chrome says of its window.
pub open spec fn chrome_window(payload: JsonView) -> Option<JsonView> {
    payload.field("chrome_window"@)
}

/// The id of the Chrome window.
pub open spec fn chrome_window_id(payload: JsonView) -> Option<Seq<char>> {
    match chrome_window(payload) {
        Some(window) => match window.field("id"@) {
            Some(id) => value_name(id),
            None => None,
        },
        None => None,
    }
}

/// Whether Chrome says that the window has the focus.
pub open spec fn chrome_window_focused(payload: JsonView) -> bool {
    match chrome_window(payload) {
        Some(window) => match window.field("focused"@) {
            Some(focused) => focused.truth() == Some(true),
            None => false,
        },
        None => false,
    }
}

/// Where Chrome says that the window stands.
pub open spec fn chrome_window_rect(payload: JsonView) -> Option<Rect> {
    match chrome_window(payload) {
        Some(window) => chrome_rect(window),
        None => None,
    }
}

/// The Hyprland windows that may be the Chrome window of a payload, from the best to the worst.
pub open spec fn payload_candidates(
    payload: JsonView,
    state: StateView,
    window_map: Seq<(Seq<char>, MappingView)>,
) -> Seq<CandidateView> {
    candidates_for(
        tab_title(payload),
        chrome_window_focused(payload),
        chrome_window_rect(payload),
        chrome_window_id(payload),
        state,
        window_map,
    )
}

/// The mappings after a payload: those to windows that are gone are forgotten, and the Chrome
/// window of the payload gets the one that the candidates speak for.
pub open spec fn mappings_after(
    payload: JsonView,
    state: StateView,
    window_map: Seq<(Seq<char>, MappingView)>,
) -> Seq<(Seq<char>, MappingView)> {
    let live = pruned(window_map, state.clients);
    updated_map(chrome_window_id(payload), payload_candidates(payload, state, live), live)
}

/// The mapping that is published with a payload: the one that the candidates speak for, or else
/// the one that the Chrome window had.
pub open spec fn published_mapping(
    payload: JsonView,
    state: StateView,
    window_map: Seq<(Seq<char>, MappingView)>,
) -> Option<MappingView> {
    let live = pruned(window_map, state.clients);
    let id = chrome_window_id(payload);
    match mapping_choice(id, payload_candidates(payload, state, live), live) {
        Some(mapping) => Some(mapping),
        None => known_mapping(id, live),
    }
}

/// What is not there is `null`.
pub open spec fn or_null(value: Option<JsonView>) -> JsonView {
    match value {
        Some(inner) => inner,
        None => JsonView::Null,
    }
}

/// What the bridge adds about itself and the mapping.
pub open spec fn bridge_object(
    received_at: Seq<char>,
    mapping: Option<MappingView>,
    known: nat,
) -> JsonView {
    JsonView::Object(
        seq![
            ("received_at"@, JsonView::Text(received_at)),
            ("schema"@, JsonView::Text(DEFAULT_SCHEMA@)),
            ("mapped_window"@, or_null(optional_mapping(mapping))),
            ("known_chrome_window_mappings"@, integer_json(known as int)),
        ],
    )
}

/// A payload as an object: one that is none is put into the field `raw`.
pub open spec fn as_object(payload: JsonView) -> JsonView {
    if payload is Object {
        payload
    } else {
        JsonView::Object(seq![("raw"@, payload)])
    }
}

/// A payload with what is known of the windows added.
pub open spec fn enriched(
    payload: JsonView,
    state: StateView,
    window_map: Seq<(Seq<char>, MappingView)>,
    surroundings: SurroundingsView,
    received_at: Seq<char>,
) -> JsonView {
    let live = pruned(window_map, state.clients);
    as_object(payload).with_field(
        "wm"@,
        JsonView::Object(
            wm_fields(
                tab_title(payload),
                state,
                payload_candidates(payload, state, live),
                surroundings,
            ),
        ),
    ).with_field(
        "bridge"@,
        bridge_object(
            received_at,
            published_mapping(payload, state, window_map),
            mappings_after(payload, state, window_map).len(),
        ),
    )
}

/// Adds to payloads what is known of the windows, and remembers which Hyprland window each Chrome
/// window is taken to be.
#[derive(Debug)]
pub struct PayloadEnricher {
    pub window_map: TextMap<WindowMapping>,
}

/// The title of the active tab, or the empty text.
fn payload_tab_title(payload: &Json) -> (r: String)
    ensures
        r@ == tab_title(payload@),
{
    match payload.get("tab") {
        Some(tab) => match tab.get_str("title") {
            Some(title) => title.to_owned(),
            None => String::new(),
        },
        None => String::new(),
    }
}

/// The id of the Chrome window.
fn payload_window_id(payload: &Json) -> (r: Option<String>)
    ensures
        viewed(r) == chrome_window_id(payload@),
{
    match payload.get("chrome_window") {
        Some(window) => match window.get("id") {
            Some(id) => value_to_string(id),
            None => None,
        },
        None => None,
    }
}

/// Whether Chrome says that the window has the focus.
fn payload_window_focused(payload: &Json) -> (r: bool)
    ensures
        r == chrome_window_focused(payload@),
{
    match payload.get("chrome_window") {
        Some(window) => match window.get("focused") {
            Some(focused) => match focused.as_bool() {
                Some(value) => value,
                None => false,
            },
            None => false,
        },
        None => false,
    }
}

/// Where Chrome says that the window stands.
fn payload_window_rect(payload: &Json) -> (r: Option<Rect>)
    ensures
        r == chrome_window_rect(payload@),
{
    match payload.get("chrome_window") {
        Some(window) => rect_from_chrome_window(window),
        None => None,
    }
}

/// What the bridge adds about itself and the mapping.
fn bridge_json(received_at: &str, mapped_window: Option<Json>, known: usize) -> (r: Json)
    ensures
        r@ == JsonView::Object(
            seq![
                ("received_at"@, JsonView::Text(received_at@)),
                ("schema"@, JsonView::Text(DEFAULT_SCHEMA@)),
                ("mapped_window"@, or_null(viewed(mapped_window))),
                ("known_chrome_window_mappings"@, integer_json(known as int)),
            ],
        ),
{
    let ghost mapped = or_null(viewed(mapped_window));
    let mut fields: Vec<(String, Json)> = Vec::new();
    push_field(&mut fields, "received_at", json_text(received_at));
    push_field(&mut fields, "schema", json_text(DEFAULT_SCHEMA));
    let value = match mapped_window {
        Some(mapping) => mapping,
        None => Json::Null,
    };
    push_field(&mut fields, "mapped_window", value);
    push_field(
        &mut fields,
        "known_chrome_window_mappings",
        Json::Number(Number::Unsigned(known as u64)),
    );
    let r = json_object(fields);
    assert(r@->Object_0 =~= seq![
        ("received_at"@, JsonView::Text(received_at@)),
        ("schema"@, JsonView::Text(DEFAULT_SCHEMA@)),
        ("mapped_window"@, mapped),
        ("known_chrome_window_mappings"@, integer_json(known as int)),
    ]);
    r
}

/// A payload as an object: one that is none is put into the field `raw`.
fn into_object(payload: Json) -> (r: Json)
    ensures
        r@ == as_object(payload@),
{
    if payload.is_object() {
        payload
    } else {
        let ghost raw = payload@;
        let mut fields: Vec<(String, Json)> = Vec::new();
        push_field(&mut fields, "raw", payload);
        let r = json_object(fields);
        assert(r@->Object_0 =~= seq![("raw"@, raw)]);
        r
    }
}

impl PayloadEnricher {
    /// An enricher that knows no mapping.
    pub fn new() -> (r: Self)
        ensures
            r.window_map@ == Seq::<(Seq<char>, MappingView)>::empty(),
    {
        PayloadEnricher { window_map: TextMap::new() }
    }

    /// Adds to a payload what is known of the windows: `hyprland` as it stands now, `surroundings`
    /// as they were found out for this payload, and the time at which the payload came.
    pub fn enrich(
        &mut self,
        payload: Json,
        hyprland: &HyprlandState,
        surroundings: &Surroundings,
        received_at: &str,
    ) -> (r: Json)
        ensures
            r@ == enriched(
                payload@,
                hyprland@,
                old(self).window_map@,
                surroundings@,
                received_at@,
            ),
            final(self).window_map@ == mappings_after(
                payload@,
                hyprland@,
                old(self).window_map@,
            ),
            distinct_keys(final(self).window_map@),
    {
        let title = payload_tab_title(&payload);
        let id = payload_window_id(&payload);
        let focused = payload_window_focused(&payload);
        let rect = payload_window_rect(&payload);
        let id_text: Option<&str> = match &id {
            Some(text) => Some(text.as_str()),
            None => None,
        };
        let rect_ref: Option<&Rect> = match &rect {
            Some(inner) => Some(inner),
            None => None,
        };
        prune_stale_window_mappings(&mut self.window_map, hyprland);
        let scores = score_hyprland_candidates(
            title.as_str(),
            focused,
            rect_ref,
            id_text,
            hyprland,
            &self.window_map,
        );
        let mapped = match update_mapping_from_candidates(
            id_text,
            scores.as_slice(),
            &mut self.window_map,
        ) {
            Some(mapping) => Some(mapping),
            None => cached_mapping_json(id_text, &self.window_map),
        };
        let wm = build_wm_context(title.as_str(), hyprland, scores.as_slice(), surroundings);
        let bridge = bridge_json(received_at, mapped, self.window_map.len());
        into_object(payload).with_field("wm", wm).with_field("bridge", bridge)
    }
}

} // verus!
