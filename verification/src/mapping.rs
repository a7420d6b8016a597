//! Which Hyprland window each Chrome window is taken to be.

use vstd::prelude::*;

use crate::client::ClientView;
use crate::confidence::{decimal_digits, hundredths, Confidence};
use crate::json::{
    json_array, json_object, json_text, push_field, viewed, Json, JsonView, Number, NumberView,
};
use crate::scoring::{candidate_views, CandidateScore, CandidateView};
use crate::state::HyprlandState;
use crate::table::{distinct_keys, has_key, lookup, with_entry, TextMap};
use crate::text::{copy_strings, same_text, strings};

verus! {

/// The Hyprland window that a Chrome window is taken to be, how sure that is, and what speaks for
/// it.
#[derive(Debug)]
pub struct WindowMapping {
    pub address: String,
    pub confidence: Confidence,
    pub sources: Vec<String>,
}

/// What a [`WindowMapping`] stands for.
pub ghost struct MappingView {
    pub address: Seq<char>,
    pub confidence: nat,
    pub sources: Seq<Seq<char>>,
}

impl View for WindowMapping {
    type V = MappingView;

    open spec fn view(&self) -> MappingView {
        MappingView {
            address: self.address@,
            confidence: self.confidence@,
            sources: strings(self.sources@),
        }
    }
}

/// A score as a JSON number.
pub open spec fn confidence_number(confidence: nat) -> JsonView {
    JsonView::Number(NumberView::Real(decimal_digits(confidence)))
}

/// The names of the signs as a JSON array.
pub open spec fn sources_array(sources: Seq<Seq<char>>) -> JsonView {
    JsonView::Array(sources.map_values(|source: Seq<char>| JsonView::Text(source)))
}

/// A mapping as it is published.
pub open spec fn mapping_object(mapping: MappingView) -> JsonView {
    JsonView::Object(
        seq![
            ("backend"@, JsonView::Text("hyprland"@)),
            ("window_id"@, JsonView::Text(mapping.address)),
            ("confidence"@, confidence_number(mapping.confidence)),
            ("sources"@, sources_array(mapping.sources)),
        ],
    )
}

/// A score as a JSON number.
pub fn confidence_json(confidence: Confidence) -> (r: Json)
    ensures
        r@ == confidence_number(confidence@),
{
    Json::Number(Number::Real(confidence.decimal()))
}

/// The names of the signs as a JSON array.
pub fn sources_json(sources: &Vec<String>) -> (r: Json)
    ensures
        r@ == sources_array(strings(sources@)),
{
    let mut items: Vec<Json> = Vec::new();
    let mut i: usize = 0;
    while i < sources.len()
        invariant
            i <= sources@.len(),
            items@.len() == i,
            forall|j: int|
                0 <= j < i ==> (#[trigger] items@[j])@ == JsonView::Text(sources@[j]@),
        decreases sources@.len() - i,
    {
        items.push(json_text(sources[i].as_str()));
        i = i + 1;
    }
    let r = json_array(items);
    assert(r@->Array_0 =~= sources_array(strings(sources@))->Array_0);
    r
}

/// A mapping as it is published.
pub fn mapping_json(mapping: &WindowMapping) -> (r: Json)
    ensures
        r@ == mapping_object(mapping@),
{
    let mut fields: Vec<(String, Json)> = Vec::new();
    push_field(&mut fields, "backend", json_text("hyprland"));
    push_field(&mut fields, "window_id", json_text(mapping.address.as_str()));
    push_field(&mut fields, "confidence", confidence_json(mapping.confidence));
    push_field(&mut fields, "sources", sources_json(&mapping.sources));
    let r = json_object(fields);
    assert(r@->Object_0 =~= mapping_object(mapping@)->Object_0);
    r
}

/// Whether another Chrome window has the candidate's window and is surer of it.
pub open spec fn held_by_stronger(
    window_map: Seq<(Seq<char>, MappingView)>,
    chrome_window_id: Seq<char>,
    candidate: CandidateView,
) -> bool {
    exists|i: int|
        0 <= i < window_map.len() && (#[trigger] window_map[i]).0 != chrome_window_id
            && window_map[i].1.address == candidate.client.address && window_map[i].1.confidence
            > candidate.confidence
}

/// The first candidate whose window no other Chrome window is surer of.
pub open spec fn contender(
    candidates: Seq<CandidateView>,
    window_map: Seq<(Seq<char>, MappingView)>,
    chrome_window_id: Seq<char>,
) -> Option<CandidateView>
    decreases candidates.len(),
{
    if candidates.len() == 0 {
        None
    } else if held_by_stronger(window_map, chrome_window_id, candidates.first()) {
        contender(candidates.drop_first(), window_map, chrome_window_id)
    } else {
        Some(candidates.first())
    }
}

/// How sure a mapping must be: by 25 hundredths where the Chrome window had this window before,
/// and else by 45.
pub open spec fn threshold(
    window_map: Seq<(Seq<char>, MappingView)>,
    chrome_window_id: Seq<char>,
    address: Seq<char>,
) -> nat {
    match lookup(window_map, chrome_window_id) {
        Some(mapping) => if mapping.address == address {
            hundredths(25)
        } else {
            hundredths(45)
        },
        None => hundredths(45),
    }
}

/// The mapping that the candidates give a Chrome window, if any.
pub open spec fn chosen_mapping(
    candidates: Seq<CandidateView>,
    window_map: Seq<(Seq<char>, MappingView)>,
    chrome_window_id: Seq<char>,
) -> Option<MappingView> {
    match contender(candidates, window_map, chrome_window_id) {
        Some(best) => if best.confidence < threshold(
            window_map,
            chrome_window_id,
            best.client.address,
        ) {
            None
        } else {
            Some(
                MappingView {
                    address: best.client.address,
                    confidence: best.confidence,
                    sources: best.sources,
                },
            )
        },
        None => None,
    }
}

/// Whether an entry stays when a Chrome window gets a mapping: another one that has the same
/// window and is less sure of it does not.
pub open spec fn outlasts(
    entry: (Seq<char>, MappingView),
    chrome_window_id: Seq<char>,
    mapping: MappingView,
) -> bool {
    entry.0 == chrome_window_id || entry.1.address != mapping.address || entry.1.confidence
        >= mapping.confidence
}

/// The condition that an entry stays when a Chrome window gets a mapping.
pub open spec fn outlasting(chrome_window_id: Seq<char>, mapping: MappingView) -> spec_fn(
    (Seq<char>, MappingView),
) -> bool {
    |entry: (Seq<char>, MappingView)| outlasts(entry, chrome_window_id, mapping)
}

/// The mappings after a Chrome window got one.
pub open spec fn assigned(
    window_map: Seq<(Seq<char>, MappingView)>,
    chrome_window_id: Seq<char>,
    mapping: MappingView,
) -> Seq<(Seq<char>, MappingView)> {
    with_entry(
        window_map.filter(outlasting(chrome_window_id, mapping)),
        chrome_window_id,
        mapping,
    )
}

/// The mapping that the candidates give, where the Chrome window is known by an id.
pub open spec fn mapping_choice(
    chrome_window_id: Option<Seq<char>>,
    candidates: Seq<CandidateView>,
    window_map: Seq<(Seq<char>, MappingView)>,
) -> Option<MappingView> {
    match chrome_window_id {
        Some(id) => chosen_mapping(candidates, window_map, id),
        None => None,
    }
}

/// The mappings after the candidates were considered.
pub open spec fn updated_map(
    chrome_window_id: Option<Seq<char>>,
    candidates: Seq<CandidateView>,
    window_map: Seq<(Seq<char>, MappingView)>,
) -> Seq<(Seq<char>, MappingView)> {
    match mapping_choice(chrome_window_id, candidates, window_map) {
        Some(mapping) => assigned(window_map, chrome_window_id->0, mapping),
        None => window_map,
    }
}

/// An optional mapping as it is published.
pub open spec fn optional_mapping(mapping: Option<MappingView>) -> Option<JsonView> {
    match mapping {
        Some(inner) => Some(mapping_object(inner)),
        None => None,
    }
}

/// Whether another Chrome window has the candidate's window and is surer of it.
fn is_held_by_stronger(
    window_map: &TextMap<WindowMapping>,
    chrome_window_id: &str,
    candidate: &CandidateScore,
) -> (r: bool)
    ensures
        r == held_by_stronger(window_map@, chrome_window_id@, candidate@),
{
    let mut i: usize = 0;
    while i < window_map.len()
        invariant
            i <= window_map@.len(),
            forall|j: int|
                0 <= j < i ==> !((#[trigger] window_map@[j]).0 != chrome_window_id@
                    && window_map@[j].1.address == candidate@.client.address
                    && window_map@[j].1.confidence > candidate@.confidence),
        decreases window_map@.len() - i,
    {
        let rival = window_map.value_at(i);
        let surer = rival.confidence.units > candidate.confidence.units;
        if surer && rival.address == candidate.client.address && !same_text(
            window_map.key_at(i).as_str(),
            chrome_window_id,
        ) {
            assert(window_map@[i as int].0 != chrome_window_id@);
            return true;
        }
        i = i + 1;
    }
    false
}

/// The position of the first candidate whose window no other Chrome window is surer of, or the
/// number of candidates.
fn contender_position(
    candidate_scores: &[CandidateScore],
    window_map: &TextMap<WindowMapping>,
    chrome_window_id: &str,
) -> (at: usize)
    ensures
        at <= candidate_scores@.len(),
        contender(candidate_views(candidate_scores@), window_map@, chrome_window_id@) == if at
            < candidate_scores@.len() {
            Some(candidate_scores@[at as int]@)
        } else {
            None
        },
{
    let ghost all = candidate_views(candidate_scores@);
    let mut at: usize = 0;
    assert(all.skip(0) =~= all);
    while at < candidate_scores.len()
        invariant
            all == candidate_views(candidate_scores@),
            at <= candidate_scores@.len(),
            contender(all, window_map@, chrome_window_id@) == contender(
                all.skip(at as int),
                window_map@,
                chrome_window_id@,
            ),
        decreases candidate_scores@.len() - at,
    {
        proof {
            assert(all.skip(at as int).first() == candidate_scores@[at as int]@);
            assert(all.skip(at as int).drop_first() =~= all.skip(at + 1));
        }
        if !is_held_by_stronger(window_map, chrome_window_id, &candidate_scores[at]) {
            return at;
        }
        at = at + 1;
    }
    at
}

/// Gives a Chrome window a mapping, and takes it from the other Chrome windows that have the same
/// window and are less sure of it.
fn assign(window_map: &mut TextMap<WindowMapping>, chrome_window_id: &str, mapping: WindowMapping)
    ensures
        final(window_map)@ == assigned(old(window_map)@, chrome_window_id@, mapping@),
        distinct_keys(final(window_map)@),
{
    let ghost condition = outlasting(chrome_window_id@, mapping@);
    let keep = |id: &String, rival: &WindowMapping| -> (r: bool)
        ensures
            r == outlasts((id@, rival@), chrome_window_id@, mapping@),
        {
            same_text(id.as_str(), chrome_window_id) || !(rival.address == mapping.address)
                || rival.confidence.units >= mapping.confidence.units
        };
    window_map.retain(keep, Ghost(condition));
    window_map.insert(chrome_window_id.to_owned(), mapping);
}

/// Gives a Chrome window the mapping that the candidates speak for, and tells how it is published.
/// The candidates come from the best to the worst; the best whose window no other Chrome window is
/// surer of is taken, if it is sure enough.
pub fn update_mapping_from_candidates(
    chrome_window_id: Option<&str>,
    candidate_scores: &[CandidateScore],
    window_map: &mut TextMap<WindowMapping>,
) -> (r: Option<Json>)
    ensures
        viewed(r) == optional_mapping(
            mapping_choice(
                viewed(chrome_window_id),
                candidate_views(candidate_scores@),
                old(window_map)@,
            ),
        ),
        final(window_map)@ == updated_map(
            viewed(chrome_window_id),
            candidate_views(candidate_scores@),
            old(window_map)@,
        ),
        distinct_keys(final(window_map)@),
{
    proof {
        use_type_invariant(&*window_map);
    }
    let id = match chrome_window_id {
        Some(id) => id,
        None => {
            return None;
        },
    };
    let at = contender_position(candidate_scores, window_map, id);
    if at >= candidate_scores.len() {
        return None;
    }
    let best = &candidate_scores[at];
    let threshold = match window_map.get(id) {
        Some(mapping) => if mapping.address == best.client.address {
            Confidence::hundredths(25)
        } else {
            Confidence::hundredths(45)
        },
        None => Confidence::hundredths(45),
    };
    if best.confidence.units < threshold.units {
        return None;
    }
    let mapping = WindowMapping {
        address: best.client.address.clone(),
        confidence: best.confidence,
        sources: copy_strings(&best.sources),
    };
    let published = mapping_json(&mapping);
    assign(window_map, id, mapping);
    Some(published)
}

/// The mapping that a Chrome window has, where it is known by an id.
pub open spec fn known_mapping(
    chrome_window_id: Option<Seq<char>>,
    window_map: Seq<(Seq<char>, MappingView)>,
) -> Option<MappingView> {
    match chrome_window_id {
        Some(id) => lookup(window_map, id),
        None => None,
    }
}

/// The mapping that a Chrome window has, as it is published.
pub fn cached_mapping_json(
    chrome_window_id: Option<&str>,
    window_map: &TextMap<WindowMapping>,
) -> (r: Option<Json>)
    ensures
        viewed(r) == optional_mapping(known_mapping(viewed(chrome_window_id), window_map@)),
{
    match chrome_window_id {
        Some(id) => match window_map.get(id) {
            Some(mapping) => Some(mapping_json(mapping)),
            None => None,
        },
        None => None,
    }
}

/// The condition that a mapping is to a known window.
pub open spec fn to_known(clients: Seq<(Seq<char>, ClientView)>) -> spec_fn(
    (Seq<char>, MappingView),
) -> bool {
    |entry: (Seq<char>, MappingView)| has_key(clients, entry.1.address)
}

/// The mappings to windows that Hyprland still knows.
pub open spec fn pruned(
    window_map: Seq<(Seq<char>, MappingView)>,
    clients: Seq<(Seq<char>, ClientView)>,
) -> Seq<(Seq<char>, MappingView)> {
    window_map.filter(to_known(clients))
}

/// Forgets the mappings to windows that Hyprland no longer knows.
pub fn prune_stale_window_mappings(
    window_map: &mut TextMap<WindowMapping>,
    hyprland: &HyprlandState,
)
    ensures
        final(window_map)@ == pruned(old(window_map)@, hyprland@.clients),
        distinct_keys(final(window_map)@),
{
    let ghost condition = to_known(hyprland@.clients);
    let keep = |_id: &String, mapping: &WindowMapping| -> (r: bool)
        ensures
            r == has_key(hyprland@.clients, mapping@.address),
        { hyprland.clients.contains_key(mapping.address.as_str()) };
    window_map.retain(keep, Ghost(condition));
}

} // verus!
