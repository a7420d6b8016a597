//! What holds of candidates and mappings: which window a Chrome window is taken to be.

use vstd::prelude::*;

use crate::client::{chrome_class, ClientView};
use crate::confidence::{added, hundredths, lemma_added, nearest, quantum, WHOLE};
use crate::enrich::{
    chrome_window_focused, chrome_window_id, chrome_window_rect, mappings_after, payload_candidates,
    published_mapping, tab_title,
};
use crate::json::JsonView;
use crate::laws::events::under_own_addresses;
use crate::mapping::{
    chosen_mapping, contender, held_by_stronger, known_mapping, mapping_choice, outlasting, pruned,
    threshold, to_known, updated_map, MappingView,
};
use crate::scoring::{
    better, cached_address, law_ranked, of_chrome_family, ranked, CandidateView, Sighting,
};
use crate::state::StateView;
use crate::table::{
    distinct_keys, first_position, has_key, lemma_filter_all, lemma_filter_is_part,
    lemma_filter_keeps, lemma_filter_keeps_keys_distinct, lemma_first_entry, lemma_lookup_has_key,
    lemma_lookup_in_filter, lemma_read_after_write, lemma_write_keeps_keys_distinct, lookup,
};

verus! {

/// How sure a candidate is lies between 5 hundredths and the whole. The window in which both
/// Chrome and Hyprland have the focus, and a window whose title is nearly the tab's, is sure
/// enough for any mapping; the window that the Chrome window had before is sure enough to keep.
pub proof fn law_confidence(sighting: Sighting, client: ClientView)
    ensures
        hundredths(5) <= sighting.confidence(client) <= WHOLE,
        sighting.is_active(client) ==> sighting.confidence(client) >= hundredths(45),
        sighting.title_reaches(client, 90) ==> sighting.confidence(client) >= hundredths(45),
        sighting.is_cached(client) ==> sighting.confidence(client) >= hundredths(25),
{
    lemma_chain(sighting, client);
    lemma_added(0, 45);
    lemma_added(0, 25);
    lemma_class_and_cached();
}

/// What the signs add, but for rounding.
pub(crate) proof fn lemma_chain(sighting: Sighting, client: ClientView)
    ensures
        ({
            let place = added(sighting.before_place(client), sighting.place_points(client));
            let active_points = sighting.active_points(client);
            let title_points = sighting.title_points(client);
            let place_points = sighting.place_points(client);
            let cached_points = sighting.cached_points(client);
            let close = |score: nat, points: nat|
                points * WHOLE / 100 - 8192 <= score <= points * WHOLE / 100 + 8192;
            &&& close(hundredths(5), 5)
            &&& close(sighting.before_place(client), 5 + active_points + title_points)
            &&& close(place, 5 + active_points + title_points + place_points)
            &&& close(
                added(place, cached_points),
                5 + active_points + title_points + place_points + cached_points,
            )
        }),
{
    lemma_added(0, 5);
    lemma_added(hundredths(5), sighting.active_points(client));
    let first = added(hundredths(5), sighting.active_points(client));
    lemma_added(first, sighting.title_points(client));
    let second = sighting.before_place(client);
    lemma_added(second, sighting.place_points(client));
    let third = added(second, sighting.place_points(client));
    lemma_added(third, sighting.cached_points(client));
}

/// A score by the multiples of which it is one.
proof fn lemma_hundredths(n: nat, step: nat, count: nat)
    requires
        quantum(n * WHOLE as nat / 100) == step,
        nearest(n * WHOLE as nat, 100 * step) == count,
    ensures
        hundredths(n) == count * step,
{
}

/// The class and the address that it had before make just the score at which a mapping is kept.
proof fn lemma_class_and_cached()
    ensures
        added(hundredths(5), 20) == hundredths(25),
{
    assert(quantum(57_646_075_230_342_348) == 8 && quantum(230_584_300_921_369_395) == 32
        && quantum(288_230_376_151_711_744) == 64 && quantum(288_230_376_151_711_760) == 64) by {
        reveal_with_fuel(quantum, 10);
    }
    assert(nearest(5_764_607_523_034_234_880, 800) == 7_205_759_403_792_794);
    assert(nearest(23_058_430_092_136_939_520, 3200) == 7_205_759_403_792_794);
    assert(nearest(28_823_037_615_171_174_400, 6400) == 4_503_599_627_370_496);
    assert(nearest(288_230_376_151_711_760, 64) == 4_503_599_627_370_496);
    lemma_hundredths(5, 8, 7_205_759_403_792_794);
    lemma_hundredths(20, 32, 7_205_759_403_792_794);
    lemma_hundredths(25, 64, 4_503_599_627_370_496);
}

/// Of two windows for which the other signs speak alike, the one that stands where Chrome says is
/// the better candidate, as long as the signs do not make it wholly sure.
pub proof fn law_place_breaks_ties(sighting: Sighting, left: ClientView, right: ClientView)
    requires
        sighting.active_points(left) == sighting.active_points(right),
        sighting.title_points(left) == sighting.title_points(right),
        sighting.cached_points(left) == sighting.cached_points(right),
        sighting.place_reaches(left, 90),
        !sighting.place_reaches(right, 90),
        sighting.confidence(right) < WHOLE,
    ensures
        better(sighting.candidate(left), sighting.candidate(right)),
{
    lemma_chain(sighting, left);
    lemma_chain(sighting, right);
}

/// The candidates are the known windows of the Chrome family, each of them with what the signs
/// say of it, and no others.
pub proof fn law_candidates(
    sighting: Sighting,
    clients: Seq<(Seq<char>, ClientView)>,
    candidate: CandidateView,
)
    ensures
        ranked(sighting.scored(clients)).contains(candidate) <==> exists|i: int|
            0 <= i < clients.len() && chrome_class((#[trigger] clients[i]).1.class_name)
                && candidate == sighting.candidate(clients[i].1),
{
    let listed = sighting.scored(clients);
    law_ranked(listed);
    lemma_same_multiset_contains(ranked(listed), listed, candidate);
    if listed.contains(candidate) {
        let at = listed.index_of(candidate);
        let origin = lemma_filter_is_part(clients, of_chrome_family(), at);
        assert(chrome_class(clients[origin].1.class_name));
    }
    if exists|i: int|
        0 <= i < clients.len() && chrome_class((#[trigger] clients[i]).1.class_name) && candidate
            == sighting.candidate(clients[i].1) {
        let i = choose|i: int|
            0 <= i < clients.len() && chrome_class((#[trigger] clients[i]).1.class_name)
                && candidate == sighting.candidate(clients[i].1);
        let place = lemma_filter_keeps(clients, of_chrome_family(), i);
        assert(listed[place] == candidate);
    }
}

proof fn lemma_same_multiset_contains(
    left: Seq<CandidateView>,
    right: Seq<CandidateView>,
    candidate: CandidateView,
)
    requires
        left.to_multiset() == right.to_multiset(),
    ensures
        left.contains(candidate) <==> right.contains(candidate),
{
    broadcast use vstd::seq_lib::group_to_multiset_ensures;

    assert(left.contains(candidate) <==> left.to_multiset().count(candidate) > 0);
    assert(right.contains(candidate) <==> right.to_multiset().count(candidate) > 0);
}

/// The candidate that is chosen: the first whose window no other Chrome window is surer of. It is
/// sure enough: by 45 hundredths, or by 25 where the Chrome window had this window before.
pub proof fn law_choice(
    candidates: Seq<CandidateView>,
    window_map: Seq<(Seq<char>, MappingView)>,
    id: Seq<char>,
)
    ensures
        chosen_mapping(candidates, window_map, id) matches Some(mapping) ==> {
            &&& mapping.confidence >= threshold(window_map, id, mapping.address)
            &&& exists|i: int|
                0 <= i < candidates.len() && is_choice(
                    candidates,
                    window_map,
                    id,
                    #[trigger] candidates[i],
                    i,
                ) && mapping == (MappingView {
                    address: candidates[i].client.address,
                    confidence: candidates[i].confidence,
                    sources: candidates[i].sources,
                })
        },
        chosen_mapping(candidates, window_map, id) is None ==> forall|i: int|
            0 <= i < candidates.len() && is_choice(
                candidates,
                window_map,
                id,
                #[trigger] candidates[i],
                i,
            ) ==> candidates[i].confidence < threshold(
                window_map,
                id,
                candidates[i].client.address,
            ),
{
    if let Some(best) = contender(candidates, window_map, id) {
        let at = contender_place(candidates, window_map, id);
        assert(is_choice(candidates, window_map, id, candidates[at], at));
        assert forall|i: int|
            0 <= i < candidates.len() && is_choice(
                candidates,
                window_map,
                id,
                #[trigger] candidates[i],
                i,
            ) implies i == at by {
            if i < at {
                assert(held_by_stronger(window_map, id, candidates[i]));
            }
            if at < i {
                assert(held_by_stronger(window_map, id, candidates[at]));
            }
        }
    } else {
        lemma_no_contender(candidates, window_map, id);
    }
}

/// Another Chrome window is surer of a candidate's window just where it has a mapping to the very
/// window with a greater score.
pub proof fn law_surer_rival(
    window_map: Seq<(Seq<char>, MappingView)>,
    id: Seq<char>,
    candidate: CandidateView,
)
    ensures
        held_by_stronger(window_map, id, candidate) <==> exists|k: int|
            0 <= k < window_map.len() && (#[trigger] window_map[k]).0 != id
                && window_map[k].1.address == candidate.client.address
                && window_map[k].1.confidence > candidate.confidence,
{
}

/// A mapping to a window that the Chrome window did not have before needs 45 hundredths; only where
/// its mapping before was to the very same window do 25 do. A candidate that no other Chrome window
/// is surer of, behind none but such as others are surer of, is refused only for less.
pub proof fn law_sure_enough(
    candidates: Seq<CandidateView>,
    window_map: Seq<(Seq<char>, MappingView)>,
    id: Seq<char>,
    i: int,
)
    ensures
        chosen_mapping(candidates, window_map, id) matches Some(mapping) ==> {
            ||| mapping.confidence >= hundredths(45)
            ||| lookup(window_map, id) is Some && lookup(window_map, id)->0.address
                == mapping.address && mapping.confidence >= hundredths(25)
        },
        0 <= i < candidates.len() && !held_by_stronger(window_map, id, candidates[i]) && (forall|
            j: int,
        |
            0 <= j < i ==> held_by_stronger(window_map, id, #[trigger] candidates[j])) ==> {
            let kept = lookup(window_map, id) is Some && lookup(window_map, id)->0.address
                == candidates[i].client.address;
            if candidates[i].confidence >= hundredths(45) || (kept && candidates[i].confidence
                >= hundredths(25)) {
                chosen_mapping(candidates, window_map, id) == Some(
                    MappingView {
                        address: candidates[i].client.address,
                        confidence: candidates[i].confidence,
                        sources: candidates[i].sources,
                    },
                )
            } else {
                chosen_mapping(candidates, window_map, id) is None
            }
        },
        (forall|j: int|
            0 <= j < candidates.len() ==> held_by_stronger(window_map, id, #[trigger] candidates[j]))
            ==> chosen_mapping(candidates, window_map, id) is None,
{
    lemma_added(0, 25);
    lemma_added(0, 45);
    if contender(candidates, window_map, id) is Some {
        let at = contender_place(candidates, window_map, id);
        assert(!held_by_stronger(window_map, id, candidates[at]));
        if 0 <= i < candidates.len() && !held_by_stronger(window_map, id, candidates[i]) && (forall|
            j: int,
        |
            0 <= j < i ==> held_by_stronger(window_map, id, #[trigger] candidates[j])) {
            if at < i {
                assert(held_by_stronger(window_map, id, candidates[at]));
            }
            if i < at {
                assert(held_by_stronger(window_map, id, candidates[i]));
            }
        }
    } else {
        lemma_no_contender(candidates, window_map, id);
        if 0 <= i < candidates.len() {
            assert(held_by_stronger(window_map, id, candidates[i]));
        }
    }
}

/// A Chrome window without an id gets no mapping, and then no mapping changes.
pub proof fn law_nameless(
    candidates: Seq<CandidateView>,
    window_map: Seq<(Seq<char>, MappingView)>,
    id: Seq<char>,
)
    ensures
        mapping_choice(None, candidates, window_map) is None,
        updated_map(None, candidates, window_map) == window_map,
        known_mapping(None, window_map) is None,
        mapping_choice(Some(id), candidates, window_map) == chosen_mapping(
            candidates,
            window_map,
            id,
        ),
        known_mapping(Some(id), window_map) == lookup(window_map, id),
{
}

/// Whether the candidate at position `i` is the first whose window no other Chrome window is
/// surer of.
pub open spec fn is_choice(
    candidates: Seq<CandidateView>,
    window_map: Seq<(Seq<char>, MappingView)>,
    id: Seq<char>,
    candidate: CandidateView,
    i: int,
) -> bool {
    &&& !held_by_stronger(window_map, id, candidate)
    &&& forall|j: int|
        0 <= j < i ==> held_by_stronger(window_map, id, #[trigger] candidates[j])
}

proof fn contender_place(
    candidates: Seq<CandidateView>,
    window_map: Seq<(Seq<char>, MappingView)>,
    id: Seq<char>,
) -> (at: int)
    requires
        contender(candidates, window_map, id) is Some,
    ensures
        0 <= at < candidates.len(),
        contender(candidates, window_map, id) == Some(candidates[at]),
        is_choice(candidates, window_map, id, candidates[at], at),
    decreases candidates.len(),
{
    if held_by_stronger(window_map, id, candidates.first()) {
        let rest = candidates.drop_first();
        let at = contender_place(rest, window_map, id) + 1;
        assert(rest[at - 1] == candidates[at]);
        assert forall|j: int| 0 <= j < at implies held_by_stronger(
            window_map,
            id,
            #[trigger] candidates[j],
        ) by {
            if j > 0 {
                assert(rest[j - 1] == candidates[j]);
            }
        }
        at
    } else {
        0
    }
}

proof fn lemma_no_contender(
    candidates: Seq<CandidateView>,
    window_map: Seq<(Seq<char>, MappingView)>,
    id: Seq<char>,
)
    requires
        contender(candidates, window_map, id) is None,
    ensures
        forall|i: int|
            0 <= i < candidates.len() ==> held_by_stronger(
                window_map,
                id,
                #[trigger] candidates[i],
            ),
    decreases candidates.len(),
{
    if candidates.len() > 0 {
        let rest = candidates.drop_first();
        lemma_no_contender(rest, window_map, id);
        assert forall|i: int| 0 <= i < candidates.len() implies held_by_stronger(
            window_map,
            id,
            #[trigger] candidates[i],
        ) by {
            if i > 0 {
                assert(rest[i - 1] == candidates[i]);
            }
        }
    }
}

/// A Chrome window that gets a mapping has it, and keys stay distinct. Another Chrome window loses
/// its mapping only to one that is for the same window and surer, and then does lose it; a mapping
/// that is surer is never taken over.
pub proof fn law_rivals(
    id: Seq<char>,
    candidates: Seq<CandidateView>,
    window_map: Seq<(Seq<char>, MappingView)>,
    rival: Seq<char>,
)
    requires
        distinct_keys(window_map),
    ensures
        ({
            let after = updated_map(Some(id), candidates, window_map);
            let choice = mapping_choice(Some(id), candidates, window_map);
            &&& distinct_keys(after)
            &&& choice matches Some(mapping) ==> lookup(after, id) == Some(mapping)
            &&& choice is None ==> after == window_map
            &&& rival != id ==> lookup(after, rival) == match (choice, lookup(window_map, rival)) {
                (Some(mapping), Some(held)) => if held.address == mapping.address
                    && held.confidence < mapping.confidence {
                    None
                } else {
                    Some(held)
                },
                (_, held) => held,
            }
            &&& rival != id ==> (choice matches Some(mapping) ==> (lookup(window_map, rival)
                matches Some(held) ==> held.address == mapping.address ==> held.confidence
                <= mapping.confidence))
        }),
{
    if let Some(mapping) = chosen_mapping(candidates, window_map, id) {
        let keep = outlasting(id, mapping);
        let kept = window_map.filter(keep);
        lemma_filter_keeps_keys_distinct(window_map, keep);
        lemma_write_keeps_keys_distinct(kept, id, mapping);
        lemma_read_after_write(kept, id, mapping, rival);
        lemma_lookup_in_filter(window_map, keep, rival);
        let at = contender_place(candidates, window_map, id);
        if rival != id {
            if let Some(held) = lookup(window_map, rival) {
                lemma_lookup_has_key(window_map, rival);
                let place = first_position(window_map, rival);
                lemma_first_entry(window_map, rival, held, place);
                assert(window_map[place].0 != id);
            }
        }
    }
}

/// After a Chrome window got a mapping, every other Chrome window that has the same window is just
/// as sure of it.
pub proof fn law_shared_windows_are_ties(
    id: Seq<char>,
    candidates: Seq<CandidateView>,
    window_map: Seq<(Seq<char>, MappingView)>,
    rival: Seq<char>,
)
    requires
        distinct_keys(window_map),
        rival != id,
    ensures
        ({
            let after = updated_map(Some(id), candidates, window_map);
            mapping_choice(Some(id), candidates, window_map) matches Some(mapping) ==> (lookup(
                after,
                rival,
            ) matches Some(held) ==> held.address == mapping.address ==> held.confidence
                == mapping.confidence)
        }),
{
    law_rivals(id, candidates, window_map, rival);
}

/// Forgetting keeps exactly the mappings to known windows, and a second time changes nothing.
pub proof fn law_prune(
    window_map: Seq<(Seq<char>, MappingView)>,
    clients: Seq<(Seq<char>, ClientView)>,
    id: Seq<char>,
)
    requires
        distinct_keys(window_map),
    ensures
        distinct_keys(pruned(window_map, clients)),
        lookup(pruned(window_map, clients), id) == match lookup(window_map, id) {
            Some(mapping) => if has_key(clients, mapping.address) {
                Some(mapping)
            } else {
                None
            },
            None => None,
        },
        pruned(pruned(window_map, clients), clients) == pruned(window_map, clients),
{
    let keep = to_known(clients);
    let live = pruned(window_map, clients);
    lemma_filter_keeps_keys_distinct(window_map, keep);
    lemma_lookup_in_filter(window_map, keep, id);
    assert forall|i: int| 0 <= i < live.len() implies keep(#[trigger] live[i]) by {
        let origin = lemma_filter_is_part(window_map, keep, i);
    }
    lemma_filter_all(live, keep);
}

/// The mapping that is published with a payload is the one that the Chrome window has after it.
pub proof fn law_published_mapping_is_remembered(
    payload: JsonView,
    state: StateView,
    window_map: Seq<(Seq<char>, MappingView)>,
)
    requires
        distinct_keys(window_map),
    ensures
        published_mapping(payload, state, window_map) == known_mapping(
            chrome_window_id(payload),
            mappings_after(payload, state, window_map),
        ),
        distinct_keys(mappings_after(payload, state, window_map)),
{
    let live = pruned(window_map, state.clients);
    law_prune(window_map, state.clients, Seq::empty());
    if let Some(id) = chrome_window_id(payload) {
        law_rivals(id, payload_candidates(payload, state, live), live, id);
    }
}

/// After a payload, every Chrome window that has a mapping is taken to be a window that Hyprland
/// knows.
pub proof fn law_mappings_are_to_known_windows(
    payload: JsonView,
    state: StateView,
    window_map: Seq<(Seq<char>, MappingView)>,
    id: Seq<char>,
)
    requires
        distinct_keys(window_map),
        under_own_addresses(state.clients),
    ensures
        lookup(mappings_after(payload, state, window_map), id) matches Some(mapping) ==> has_key(
            state.clients,
            mapping.address,
        ),
{
    let live = pruned(window_map, state.clients);
    let candidates = payload_candidates(payload, state, live);
    law_prune(window_map, state.clients, id);
    if let Some(own) = chrome_window_id(payload) {
        law_rivals(own, candidates, live, id);
        law_choice(candidates, live, own);
        if let Some(mapping) = chosen_mapping(candidates, live, own) {
            let at = contender_place(candidates, live, own);
            let sighting = Sighting {
                title: tab_title(payload),
                focused: chrome_window_focused(payload),
                rect: chrome_window_rect(payload),
                cached: cached_address(live, chrome_window_id(payload)),
                active: state.active_address,
            };
            law_candidates(sighting, state.clients, candidates[at]);
            assert(candidates.contains(candidates[at]));
            let i = choose|i: int|
                0 <= i < state.clients.len() && chrome_class(
                    (#[trigger] state.clients[i]).1.class_name,
                ) && candidates[at] == sighting.candidate(state.clients[i].1);
            assert(state.clients[i].0 == mapping.address);
        }
    }
}

} // verus!
