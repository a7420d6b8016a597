//! What is published of the window manager beside a payload.

use vstd::prelude::*;

use crate::client::{
    chrome_class, client_fields, compact_fields, compact_hypr_client, looks_like_chrome,
    ClientView,
};
use crate::json::{
    absent, field_views, insert_optional_string, item_views, json_array, json_object, json_text,
    lemma_new_field, optional_field, optional_text, push_field, viewed, Json, JsonView,
};
use crate::mapping::{confidence_json, confidence_number, sources_array, sources_json};
use crate::ratio::reaches;
use crate::scoring::{candidate_views, CandidateScore, CandidateView};
use crate::similarity::{title_likeness, title_similarity};
use crate::state::{HyprlandState, StateView};
use crate::table::lookup;
use crate::text::{digits_of, hex_text, parse_u64, parsed_u64};

verus! {

/// The active window of an X server: its id as the server's tools write it, and its title.
#[derive(Debug)]
pub struct X11Active {
    pub id_decimal: String,
    pub title: Option<String>,
}

/// What was found out about the window managers of the machine, and when.
#[derive(Debug)]
pub struct Surroundings {
    pub checked_at: String,
    pub hyprctl_installed: bool,
    pub xdotool_installed: bool,
    pub x11_active: Option<X11Active>,
}

/// What an [`X11Active`] stands for.
pub ghost struct X11View {
    pub id_decimal: Seq<char>,
    pub title: Option<Seq<char>>,
}

/// What a [`Surroundings`] stands for.
pub ghost struct SurroundingsView {
    pub checked_at: Seq<char>,
    pub hyprctl_installed: bool,
    pub xdotool_installed: bool,
    pub x11_active: Option<X11View>,
}

impl View for X11Active {
    type V = X11View;

    open spec fn view(&self) -> X11View {
        X11View { id_decimal: self.id_decimal@, title: viewed(self.title) }
    }
}

impl View for Surroundings {
    type V = SurroundingsView;

    open spec fn view(&self) -> SurroundingsView {
        SurroundingsView {
            checked_at: self.checked_at@,
            hyprctl_installed: self.hyprctl_installed,
            xdotool_installed: self.xdotool_installed,
            x11_active: viewed(self.x11_active),
        }
    }
}

/// A list without what follows its fifth item.
pub open spec fn first_five<T>(list: Seq<T>) -> Seq<T> {
    if list.len() <= 5 {
        list
    } else {
        list.take(5)
    }
}

/// A window as a JSON object.
pub open spec fn client_object(client: ClientView) -> JsonView {
    JsonView::Object(client_fields(client))
}

/// A candidate as a JSON object: the window, how sure it is, and what speaks for it.
pub open spec fn candidate_object(candidate: CandidateView) -> JsonView {
    JsonView::Object(
        client_fields(candidate.client) + seq![
            ("confidence"@, confidence_number(candidate.confidence)),
            ("sources"@, sources_array(candidate.sources)),
        ],
    )
}

/// A candidate as a JSON object.
pub fn candidate_score_json(score: &CandidateScore) -> (r: Json)
    ensures
        r@ == candidate_object(score@),
{
    let mut fields = compact_fields(&score.client);
    push_field(&mut fields, "confidence", confidence_json(score.confidence));
    push_field(&mut fields, "sources", sources_json(&score.sources));
    let r = json_object(fields);
    assert(r@->Object_0 =~= candidate_object(score@)->Object_0);
    r
}

/// Whether a window belongs to a browser of the Chrome family and its title is at least half like
/// the tab's.
pub open spec fn title_match(title: Seq<char>, client: ClientView) -> bool {
    let likeness = title_likeness(title, client.title);
    chrome_class(client.class_name) && reaches(likeness.0 as int, likeness.1 as int, 50)
}

/// The first five windows that match a title, as JSON objects.
pub open spec fn title_matches(
    title: Seq<char>,
    clients: Seq<(Seq<char>, ClientView)>,
) -> Seq<JsonView> {
    first_five(
        clients.filter(|entry: (Seq<char>, ClientView)| title_match(title, entry.1)).map_values(
            |entry: (Seq<char>, ClientView)| client_object(entry.1),
        ),
    )
}

/// The first five candidates, as JSON objects.
pub open spec fn top_candidates(candidates: Seq<CandidateView>) -> Seq<JsonView> {
    first_five(candidates.map_values(|candidate: CandidateView| candidate_object(candidate)))
}

/// Hyprland's active window as it is published: all that is known of it, or only its address.
pub open spec fn active_window(state: StateView) -> Option<JsonView> {
    match state.active_address {
        Some(address) => match lookup(state.clients, address) {
            Some(client) => Some(client_object(client)),
            None => Some(JsonView::Object(seq![("address"@, JsonView::Text(address))])),
        },
        None => None,
    }
}

/// The windows with a title like the tab's, where the tab has a title.
pub open spec fn matches_field(
    title: Seq<char>,
    clients: Seq<(Seq<char>, ClientView)>,
) -> Option<JsonView> {
    if title.len() > 0 {
        Some(JsonView::Array(title_matches(title, clients)))
    } else {
        None
    }
}

/// What is published of Hyprland.
pub open spec fn hyprland_fields(
    title: Seq<char>,
    state: StateView,
    candidates: Seq<CandidateView>,
) -> Seq<(Seq<char>, JsonView)> {
    seq![("hyprland_event_stream_connected"@, JsonView::Bool(state.event_stream_connected))]
        + optional_field("hyprland_last_event"@, optional_text(state.last_event)) + optional_field(
        "hyprland_last_event_at"@,
        optional_text(state.last_event_at),
    ) + optional_field("hyprland_last_checked_at"@, optional_text(state.last_checked_at))
        + optional_field("hyprland_active"@, active_window(state)) + optional_field(
        "hyprland_title_matches"@,
        matches_field(title, state.clients),
    ) + seq![("hyprland_candidates"@, JsonView::Array(top_candidates(candidates)))]
}

/// The id of an X window in base sixteen, where it is a number.
pub open spec fn id_hex(id_decimal: Seq<char>) -> Option<Seq<char>> {
    match parsed_u64(id_decimal) {
        Some(id) => Some("0x"@ + digits_of(id as nat, 16)),
        None => None,
    }
}

/// The active window of an X server as it is published.
pub open spec fn x11_object(active: X11View) -> JsonView {
    JsonView::Object(
        seq![("id_decimal"@, JsonView::Text(active.id_decimal))] + optional_field(
            "id_hex"@,
            optional_text(id_hex(active.id_decimal)),
        ) + optional_field("title"@, optional_text(active.title)),
    )
}

/// The active window of an X server as it is published.
pub open spec fn optional_x11(active: Option<X11View>) -> Option<JsonView> {
    match active {
        Some(inner) => Some(x11_object(inner)),
        None => None,
    }
}

/// Whether there is anything to publish of Hyprland.
pub open spec fn hyprland_available(state: StateView, surroundings: SurroundingsView) -> bool {
    surroundings.hyprctl_installed || state.clients.len() > 0
}

/// The names of the window managers of which something is published.
pub open spec fn backends(state: StateView, surroundings: SurroundingsView) -> Seq<JsonView> {
    (if hyprland_available(state, surroundings) {
        seq![JsonView::Text("hyprland"@)]
    } else {
        seq![]
    }) + (if surroundings.xdotool_installed {
        seq![JsonView::Text("x11"@)]
    } else {
        seq![]
    })
}

/// What is published of the window managers.
pub open spec fn wm_fields(
    title: Seq<char>,
    state: StateView,
    candidates: Seq<CandidateView>,
    surroundings: SurroundingsView,
) -> Seq<(Seq<char>, JsonView)> {
    seq![("checked_at"@, JsonView::Text(surroundings.checked_at))] + (if hyprland_available(
        state,
        surroundings,
    ) {
        hyprland_fields(title, state, candidates)
    } else {
        seq![]
    }) + (if surroundings.xdotool_installed {
        optional_field("x11_active"@, optional_x11(surroundings.x11_active))
    } else {
        seq![]
    }) + seq![("available_backends"@, JsonView::Array(backends(state, surroundings)))]
}

/// The first five windows that match a title, as a JSON array.
fn title_matches_json(tab_title: &str, hyprland: &HyprlandState) -> (r: Json)
    ensures
        r@ == JsonView::Array(title_matches(tab_title@, hyprland@.clients)),
{
    let ghost clients = hyprland@.clients;
    let ghost fits = |entry: (Seq<char>, ClientView)| title_match(tab_title@, entry.1);
    let ghost shown = |entry: (Seq<char>, ClientView)| client_object(entry.1);
    let mut items: Vec<Json> = Vec::new();
    let mut i: usize = 0;
    proof {
        reveal(Seq::filter);
        assert(item_views(items@) =~= first_five(clients.take(0).filter(fits).map_values(shown)));
    }
    while i < hyprland.clients.len()
        invariant
            clients == hyprland.clients@,
            fits == (|entry: (Seq<char>, ClientView)| title_match(tab_title@, entry.1)),
            shown == (|entry: (Seq<char>, ClientView)| client_object(entry.1)),
            i <= clients.len(),
            item_views(items@) == first_five(
                clients.take(i as int).filter(fits).map_values(shown),
            ),
        decreases clients.len() - i,
    {
        let client = hyprland.clients.value_at(i);
        let ghost found = clients.take(i as int).filter(fits).map_values(shown);
        let ghost before = items@;
        proof {
            reveal(Seq::filter);
            assert(clients.take(i + 1).drop_last() =~= clients.take(i as int));
            assert(clients.take(i + 1).last() == clients[i as int]);
            assert(found.len() == clients.take(i as int).filter(fits).len());
        }
        if looks_like_chrome(client.class_name.as_str()) && title_similarity(
            tab_title,
            client.title.as_str(),
        ).at_least(50) {
            proof {
                assert(clients.take(i + 1).filter(fits).map_values(shown) =~= found.push(
                    client_object(client@),
                ));
            }
            if items.len() < 5 {
                items.push(compact_hypr_client(client));
                assert(item_views(items@) =~= item_views(before).push(client_object(client@)));
            }
            assert(item_views(items@) =~= first_five(found.push(client_object(client@))));
        }
        i = i + 1;
    }
    assert(clients.take(i as int) =~= clients);
    json_array(items)
}

/// The first five candidates, as a JSON array.
fn top_candidates_json(candidate_scores: &[CandidateScore]) -> (r: Json)
    ensures
        r@ == JsonView::Array(top_candidates(candidate_views(candidate_scores@))),
{
    let mut items: Vec<Json> = Vec::new();
    let mut i: usize = 0;
    while i < candidate_scores.len() && i < 5
        invariant
            i <= candidate_scores@.len(),
            i <= 5,
            items@.len() == i,
            forall|j: int|
                0 <= j < i ==> (#[trigger] items@[j])@ == candidate_object(candidate_scores@[j]@),
        decreases candidate_scores@.len() - i,
    {
        items.push(candidate_score_json(&candidate_scores[i]));
        i = i + 1;
    }
    assert(item_views(items@) =~= top_candidates(candidate_views(candidate_scores@)));
    json_array(items)
}

/// Hyprland's active window as it is published.
fn active_window_json(hyprland: &HyprlandState) -> (r: Option<Json>)
    ensures
        viewed(r) == active_window(hyprland@),
{
    match &hyprland.active_address {
        Some(address) => match hyprland.clients.get(address.as_str()) {
            Some(client) => Some(compact_hypr_client(client)),
            None => {
                let mut fields: Vec<(String, Json)> = Vec::new();
                push_field(&mut fields, "address", json_text(address.as_str()));
                let r = json_object(fields);
                assert(r@->Object_0 =~= seq![("address"@, JsonView::Text(address@))]);
                Some(r)
            },
        },
        None => None,
    }
}

/// The text slice of an optional string.
fn as_deref(value: &Option<String>) -> (r: Option<&str>)
    ensures
        viewed(r) == viewed(*value),
{
    match value {
        Some(text) => Some(text.as_str()),
        None => None,
    }
}

/// What is published of Hyprland.
fn hyprland_json_fields(
    tab_title: &str,
    hyprland: &HyprlandState,
    candidate_scores: &[CandidateScore],
) -> (fields: Vec<(String, Json)>)
    ensures
        field_views(fields@) == hyprland_fields(
            tab_title@,
            hyprland@,
            candidate_views(candidate_scores@),
        ),
{
    let mut fields: Vec<(String, Json)> = Vec::new();
    push_field(
        &mut fields,
        "hyprland_event_stream_connected",
        Json::Bool(hyprland.event_stream_connected),
    );
    proof {
        reveal_strlit("hyprland_event_stream_connected");
        reveal_strlit("hyprland_last_event");
        reveal_strlit("hyprland_last_event_at");
        reveal_strlit("hyprland_last_checked_at");
        assert("hyprland_event_stream_connected"@.len() == 31);
        assert("hyprland_last_event"@.len() == 19);
        assert("hyprland_last_event_at"@.len() == 22);
        assert("hyprland_last_checked_at"@.len() == 24);
        assert(field_views(fields@) =~= seq![
            (
                "hyprland_event_stream_connected"@,
                JsonView::Bool(hyprland@.event_stream_connected),
            ),
        ]);
        assert(absent(field_views(fields@), "hyprland_last_event"@));
        assert(absent(field_views(fields@), "hyprland_last_event_at"@));
        assert(absent(field_views(fields@), "hyprland_last_checked_at"@));
        lemma_new_field(
            field_views(fields@),
            "hyprland_last_event"@,
            optional_text(hyprland@.last_event),
        );
    }
    insert_optional_string(&mut fields, "hyprland_last_event", as_deref(&hyprland.last_event));
    proof {
        lemma_new_field(
            field_views(fields@),
            "hyprland_last_event_at"@,
            optional_text(hyprland@.last_event_at),
        );
    }
    insert_optional_string(
        &mut fields,
        "hyprland_last_event_at",
        as_deref(&hyprland.last_event_at),
    );
    proof {
        lemma_new_field(
            field_views(fields@),
            "hyprland_last_checked_at"@,
            optional_text(hyprland@.last_checked_at),
        );
    }
    insert_optional_string(
        &mut fields,
        "hyprland_last_checked_at",
        as_deref(&hyprland.last_checked_at),
    );
    if let Some(active) = active_window_json(hyprland) {
        push_field(&mut fields, "hyprland_active", active);
    }
    if !tab_title.is_empty() {
        push_field(&mut fields, "hyprland_title_matches", title_matches_json(tab_title, hyprland));
    }
    push_field(&mut fields, "hyprland_candidates", top_candidates_json(candidate_scores));
    assert(field_views(fields@) =~= hyprland_fields(
        tab_title@,
        hyprland@,
        candidate_views(candidate_scores@),
    ));
    fields
}

/// The active window of an X server as it is published.
fn x11_active_json(active: &X11Active) -> (r: Json)
    ensures
        r@ == x11_object(active@),
{
    let mut fields: Vec<(String, Json)> = Vec::new();
    push_field(&mut fields, "id_decimal", json_text(active.id_decimal.as_str()));
    if let Some(id) = parse_u64(active.id_decimal.as_str()) {
        push_field(&mut fields, "id_hex", Json::Text(hex_text(id)));
    }
    if let Some(title) = &active.title {
        push_field(&mut fields, "title", json_text(title.as_str()));
    }
    let r = json_object(fields);
    assert(r@->Object_0 =~= x11_object(active@)->Object_0);
    r
}

/// What is published of the window managers.
pub fn build_wm_context(
    tab_title: &str,
    hyprland: &HyprlandState,
    candidate_scores: &[CandidateScore],
    surroundings: &Surroundings,
) -> (r: Json)
    ensures
        r@ == JsonView::Object(
            wm_fields(
                tab_title@,
                hyprland@,
                candidate_views(candidate_scores@),
                surroundings@,
            ),
        ),
{
    let mut fields: Vec<(String, Json)> = Vec::new();
    let mut available: Vec<Json> = Vec::new();
    push_field(&mut fields, "checked_at", json_text(surroundings.checked_at.as_str()));
    if surroundings.hyprctl_installed || !hyprland.clients.is_empty() {
        available.push(json_text("hyprland"));
        let mut hyprland_part = hyprland_json_fields(tab_title, hyprland, candidate_scores);
        let ghost head = fields@;
        let ghost part = hyprland_part@;
        fields.append(&mut hyprland_part);
        assert(field_views(fields@) =~= field_views(head) + field_views(part));
    }
    if surroundings.xdotool_installed {
        available.push(json_text("x11"));
        if let Some(active) = &surroundings.x11_active {
            push_field(&mut fields, "x11_active", x11_active_json(active));
        }
    }
    assert(item_views(available@) =~= backends(hyprland@, surroundings@));
    push_field(&mut fields, "available_backends", json_array(available));
    let r = json_object(fields);
    assert(r@->Object_0 =~= wm_fields(
        tab_title@,
        hyprland@,
        candidate_views(candidate_scores@),
        surroundings@,
    ));
    r
}

} // verus!
