//! What holds of scores: how they are rounded and written, and what each candidate gets them for.

use vstd::arithmetic::power::pow;
use vstd::arithmetic::power2::pow2;
use vstd::prelude::*;

use crate::client::{chrome_class, ClientView};
use crate::confidence::{
    decimal_digits, decimals, hundredths, law_decimals_are_exact, nearest, quantum, rounded, sum,
    WHOLE,
};
use crate::geometry::{rect_likeness, Rect};
use crate::json::{JsonView, NumberView};
use crate::laws::mappings::{law_candidates, lemma_chain};
use crate::laws::texts::law_digits;
use crate::mapping::{confidence_number, MappingView};
use crate::scoring::{
    better, cached_address, candidates_for, law_ranked, of_chrome_family, ranked, Sighting,
};
use crate::similarity::title_likeness;
use crate::state::StateView;
use crate::table::lookup;
use crate::text::{decimal_value, digits_of};

verus! {

/// A score has 53 significant bits and is the nearest such number: it is a multiple of the power of
/// two that leaves so many bits, no more than half of that away, and where two are equally near it
/// is the even one.
pub proof fn law_rounded(numerator: nat, denominator: nat, k: nat)
    requires
        denominator > 0,
        numerator / denominator < pow2(k) * 0x20_0000_0000_0000,
        k > 0 ==> pow2(k) * 0x10_0000_0000_0000 <= numerator / denominator,
    ensures
        ({
            let step = pow2(k);
            let count = rounded(numerator, denominator) / step;
            &&& rounded(numerator, denominator) == count * step
            &&& 2 * (count * (denominator * step)) <= 2 * numerator + denominator * step
            &&& 2 * (count * (denominator * step)) >= 2 * numerator - denominator * step
            &&& 2 * (count * (denominator * step)) == 2 * numerator + denominator * step || 2 * (
            count * (denominator * step)) == 2 * numerator - denominator * step ==> count % 2 == 0
        }),
{
    let step = pow2(k);
    let divisor = denominator * step;
    let count = nearest(numerator, divisor);
    vstd::arithmetic::power2::lemma_pow2_pos(k);
    lemma_quantum_is(numerator / denominator, k);
    assert(divisor > 0) by (nonlinear_arith)
        requires
            denominator > 0,
            step > 0,
            divisor == denominator * step,
    ;
    assert(rounded(numerator, denominator) == count * step);
    vstd::arithmetic::div_mod::lemma_div_by_multiple(count as int, step as int);
    assert(count * step / step == count);
    let floor = numerator / divisor;
    let rest = numerator % divisor;
    vstd::arithmetic::div_mod::lemma_fundamental_div_mod(numerator as int, divisor as int);
    assert(divisor * floor == floor * divisor) by (nonlinear_arith);
    assert((floor + 1) * divisor == floor * divisor + divisor) by (nonlinear_arith);
}

proof fn lemma_quantum_is(n: nat, k: nat)
    requires
        n < pow2(k) * 0x20_0000_0000_0000,
        k > 0 ==> pow2(k) * 0x10_0000_0000_0000 <= n,
    ensures
        quantum(n) == pow2(k),
    decreases k,
{
    vstd::arithmetic::power2::lemma2_to64();
    if k > 0 {
        let half = pow2((k - 1) as nat);
        vstd::arithmetic::power2::lemma_pow2_unfold(k);
        vstd::arithmetic::power2::lemma_pow2_pos((k - 1) as nat);
        assert(pow2(k) == 2 * half);
        lemma_quantum_is(n / 2, (k - 1) as nat);
    }
}

/// So many hundredths are the score that is nearest to them, and a sum is the score that is nearest
/// to it, in units of which the whole has so many.
pub proof fn law_sums(n: nat, left: nat, right: nat)
    ensures
        hundredths(n) == rounded(n * 1_152_921_504_606_846_976, 100),
        sum(left, right) == rounded(left + right, 1),
        WHOLE == 1_152_921_504_606_846_976,
{
}

/// A score is written exactly: digits, a point, and digits, which make up the number.
pub proof fn law_written_score(units: nat) -> (parts: (Seq<char>, Seq<char>))
    ensures
        decimal_digits(units) == parts.0 + seq!['.'] + parts.1,
        parts.0.len() > 0,
        parts.1.len() > 0,
        forall|i: int| 0 <= i < parts.0.len() ==> '0' <= #[trigger] parts.0[i] <= '9',
        forall|i: int| 0 <= i < parts.1.len() ==> '0' <= #[trigger] parts.1[i] <= '9',
        (decimal_value(parts.0) * pow(10, parts.1.len()) + decimal_value(parts.1))
            * 1_152_921_504_606_846_976 == units * pow(10, parts.1.len()),
{
    reveal_strlit(".");
    let whole = units / WHOLE as nat;
    let rest = units % WHOLE as nat;
    let first = digits_of(whole, 10);
    let second = if rest == 0 {
        seq!['0']
    } else {
        decimals(rest, 60)
    };
    law_digits(whole);
    assert("."@ =~= seq!['.']);
    assert(seq![crate::text::digit_char(0)] =~= seq!['0']);
    if rest == 0 {
        assert(second.drop_last() =~= Seq::<char>::empty());
        assert(decimal_value(second.drop_last()) == 0);
        assert(decimal_value(second) == 0);
    } else {
        law_decimals_are_exact(rest);
        lemma_decimals_are_digits(rest, 60);
    }
    let scale = pow(10, second.len());
    let value = decimal_value(second);
    assert((whole * scale + value) * WHOLE == units * scale) by (nonlinear_arith)
        requires
            value * WHOLE == rest * scale,
            units == WHOLE * whole + rest,
    ;
    (first, second)
}

/// A published score is the number that writes it exactly.
pub proof fn law_published_score(units: nat)
    ensures
        confidence_number(units) == JsonView::Number(NumberView::Real(decimal_digits(units))),
{
}

proof fn lemma_decimals_are_digits(rest: nat, places: nat)
    requires
        rest < WHOLE,
    ensures
        forall|i: int|
            0 <= i < decimals(rest, places).len() ==> '0' <= #[trigger] decimals(rest, places)[i]
                <= '9',
        rest > 0 && places > 0 ==> decimals(rest, places).len() > 0,
    decreases places,
{
    if rest > 0 && places > 0 {
        let next = rest * 10 % WHOLE as nat;
        let later = decimals(next, (places - 1) as nat);
        lemma_decimals_are_digits(next, (places - 1) as nat);
        let all = decimals(rest, places);
        assert forall|i: int| 0 <= i < all.len() implies '0' <= #[trigger] all[i] <= '9' by {
            if i > 0 {
                assert(all[i] == later[i - 1]);
            }
        }
    }
}

/// The candidates are windows of the Chrome family that Hyprland knows, every one of them, and one
/// more such window makes one more candidate.
pub proof fn law_candidate_windows(
    title: Seq<char>,
    focused: bool,
    rect: Option<Rect>,
    id: Option<Seq<char>>,
    state: StateView,
    window_map: Seq<(Seq<char>, MappingView)>,
    more: StateView,
    entry: (Seq<char>, ClientView),
)
    requires
        more.clients == state.clients.push(entry),
    ensures
        ({
            let found = candidates_for(title, focused, rect, id, state, window_map);
            let later = candidates_for(title, focused, rect, id, more, window_map);
            &&& forall|i: int|
                0 <= i < found.len() ==> exists|k: int|
                    0 <= k < state.clients.len() && (#[trigger] state.clients[k]).1 == (
                    #[trigger] found[i]).client && chrome_class(state.clients[k].1.class_name)
            &&& forall|k: int|
                0 <= k < state.clients.len() && chrome_class(
                    (#[trigger] state.clients[k]).1.class_name,
                ) ==> exists|i: int|
                    0 <= i < found.len() && (#[trigger] found[i]).client == state.clients[k].1
            &&& state.clients.len() == 0 ==> found.len() == 0
            &&& later.len() == found.len() + (if chrome_class(entry.1.class_name) {
                1int
            } else {
                0
            })
        }),
{
    let sighting = Sighting {
        title,
        focused,
        rect,
        cached: cached_address(window_map, id),
        active: state.active_address,
    };
    let other = Sighting { active: more.active_address, ..sighting };
    let found = candidates_for(title, focused, rect, id, state, window_map);
    law_ranked(sighting.scored(state.clients));
    law_ranked(other.scored(more.clients));
    assert forall|i: int| 0 <= i < found.len() implies exists|k: int|
        0 <= k < state.clients.len() && (#[trigger] state.clients[k]).1 == (
        #[trigger] found[i]).client && chrome_class(state.clients[k].1.class_name) by {
        law_candidates(sighting, state.clients, found[i]);
        assert(found.contains(found[i]));
        let k = choose|k: int|
            0 <= k < state.clients.len() && chrome_class((#[trigger] state.clients[k]).1.class_name)
                && found[i] == sighting.candidate(state.clients[k].1);
        assert(state.clients[k].1 == found[i].client);
    }
    assert forall|k: int|
        0 <= k < state.clients.len() && chrome_class(
            (#[trigger] state.clients[k]).1.class_name,
        ) implies exists|i: int|
        0 <= i < found.len() && (#[trigger] found[i]).client == state.clients[k].1 by {
        let candidate = sighting.candidate(state.clients[k].1);
        law_candidates(sighting, state.clients, candidate);
        let i = found.index_of(candidate);
        assert(found[i].client == state.clients[k].1);
    }
    reveal(Seq::filter);
    assert(more.clients.drop_last() =~= state.clients);
    assert(of_chrome_family()(entry) == chrome_class(entry.1.class_name));
    assert(sighting.scored(state.clients).len() == state.clients.filter(
        of_chrome_family(),
    ).len());
    assert(other.scored(more.clients).len() == more.clients.filter(of_chrome_family()).len());
}

/// The candidates come from the surest to the least sure, and of two that are equally sure the one
/// that had the focus more recently comes first: a smaller place in the focus history is more
/// recent, and a window without one is less recent than any that has one.
pub proof fn law_candidate_order(
    title: Seq<char>,
    focused: bool,
    rect: Option<Rect>,
    id: Option<Seq<char>>,
    state: StateView,
    window_map: Seq<(Seq<char>, MappingView)>,
    i: int,
    j: int,
)
    requires
        0 <= i < j < candidates_for(title, focused, rect, id, state, window_map).len(),
    ensures
        ({
            let found = candidates_for(title, focused, rect, id, state, window_map);
            &&& found[i].confidence >= found[j].confidence
            &&& found[i].confidence == found[j].confidence ==> (
            found[j].client.focus_history_id matches Some(later) ==> (
            found[i].client.focus_history_id matches Some(earlier) && earlier <= later))
        }),
{
    let sighting = Sighting {
        title,
        focused,
        rect,
        cached: cached_address(window_map, id),
        active: state.active_address,
    };
    let found = candidates_for(title, focused, rect, id, state, window_map);
    law_ranked(sighting.scored(state.clients));
    assert(!better(found[j], found[i]));
}

/// What speaks for a candidate is named, in this order: its class; that Chrome has the focus in it,
/// and Hyprland too; a title that is nine tenths like the tab's, or one that is half like it; a
/// place like Chrome's, or one roughly like it; and that the Chrome window was taken to be this
/// window before.
pub proof fn law_evidence(
    title: Seq<char>,
    focused: bool,
    rect: Option<Rect>,
    id: Option<Seq<char>>,
    state: StateView,
    window_map: Seq<(Seq<char>, MappingView)>,
    i: int,
)
    requires
        0 <= i < candidates_for(title, focused, rect, id, state, window_map).len(),
    ensures
        ({
            let found = candidates_for(title, focused, rect, id, state, window_map)[i];
            let client = found.client;
            let (shared, all) = title_likeness(title, client.title);
            let active = focused && state.active_address == Some(client.address);
            let full = 10 * shared >= 9 * all;
            let half = 2 * shared >= all;
            let exact = rect is Some && client.rect is Some && rect_likeness(
                rect->0,
                client.rect->0,
            ) == 100;
            let rough = rect is Some && client.rect is Some && rect_likeness(
                rect->0,
                client.rect->0,
            ) == 80;
            let kept = id is Some && lookup(window_map, id->0) is Some && lookup(
                window_map,
                id->0,
            )->0.address == client.address;
            let names = found.sources;
            let a = if active {
                1int
            } else {
                0
            };
            let t = if full || half {
                1int
            } else {
                0
            };
            let p = if exact || rough {
                1int
            } else {
                0
            };
            let k = if kept {
                1int
            } else {
                0
            };
            &&& names.len() == 1 + a + t + p + k
            &&& names[0] == "chrome_class"@
            &&& active ==> names[1] == "hyprland_active_window"@
            &&& full ==> names[1 + a] == "exact_or_contained_title"@
            &&& half && !full ==> names[1 + a] == "partial_title"@
            &&& exact ==> names[1 + a + t] == "geometry_match"@
            &&& rough ==> names[1 + a + t] == "approximate_geometry"@
            &&& kept ==> names[1 + a + t + p] == "cached_mapping_continuity"@
        }),
{
    let sighting = Sighting {
        title,
        focused,
        rect,
        cached: cached_address(window_map, id),
        active: state.active_address,
    };
    let at = lemma_candidate_of(sighting, state.clients, i);
    let client = state.clients[at].1;
    lemma_places(sighting, client);
    lemma_sources(sighting, client);
}

/// How sure a candidate is: its class counts 5 hundredths, the focus 55, a title that is nine
/// tenths like the tab's 55 and one that is half like it 25, a place like Chrome's 30 and one
/// roughly like it 18, and the window that it was before 20. They are added in this order, each sum
/// rounded, up to the whole.
pub proof fn law_score(
    title: Seq<char>,
    focused: bool,
    rect: Option<Rect>,
    id: Option<Seq<char>>,
    state: StateView,
    window_map: Seq<(Seq<char>, MappingView)>,
    i: int,
)
    requires
        0 <= i < candidates_for(title, focused, rect, id, state, window_map).len(),
    ensures
        ({
            let found = candidates_for(title, focused, rect, id, state, window_map)[i];
            let client = found.client;
            let (shared, all) = title_likeness(title, client.title);
            let active = focused && state.active_address == Some(client.address);
            let full = 10 * shared >= 9 * all;
            let half = 2 * shared >= all;
            let exact = rect is Some && client.rect is Some && rect_likeness(
                rect->0,
                client.rect->0,
            ) == 100;
            let rough = rect is Some && client.rect is Some && rect_likeness(
                rect->0,
                client.rect->0,
            ) == 80;
            let kept = id is Some && lookup(window_map, id->0) is Some && lookup(
                window_map,
                id->0,
            )->0.address == client.address;
            let by_class = hundredths(5);
            let by_focus = if active {
                sum(by_class, hundredths(55))
            } else {
                by_class
            };
            let by_title = if full {
                sum(by_focus, hundredths(55))
            } else if half {
                sum(by_focus, hundredths(25))
            } else {
                by_focus
            };
            let by_place = if exact {
                sum(by_title, hundredths(30))
            } else if rough {
                sum(by_title, hundredths(18))
            } else {
                by_title
            };
            let by_address = if kept {
                sum(by_place, hundredths(20))
            } else {
                by_place
            };
            found.confidence == (if by_address > 1_152_921_504_606_846_976 {
                1_152_921_504_606_846_976
            } else {
                by_address
            })
        }),
{
    let sighting = Sighting {
        title,
        focused,
        rect,
        cached: cached_address(window_map, id),
        active: state.active_address,
    };
    let at = lemma_candidate_of(sighting, state.clients, i);
    let client = state.clients[at].1;
    lemma_places(sighting, client);
}

/// But for rounding, the score of a candidate is the sum of what speaks for it, up to the whole.
pub proof fn law_points(
    title: Seq<char>,
    focused: bool,
    rect: Option<Rect>,
    id: Option<Seq<char>>,
    state: StateView,
    window_map: Seq<(Seq<char>, MappingView)>,
    i: int,
)
    requires
        0 <= i < candidates_for(title, focused, rect, id, state, window_map).len(),
    ensures
        ({
            let found = candidates_for(title, focused, rect, id, state, window_map)[i];
            let client = found.client;
            let (shared, all) = title_likeness(title, client.title);
            let active = focused && state.active_address == Some(client.address);
            let full = 10 * shared >= 9 * all;
            let half = 2 * shared >= all;
            let exact = rect is Some && client.rect is Some && rect_likeness(
                rect->0,
                client.rect->0,
            ) == 100;
            let rough = rect is Some && client.rect is Some && rect_likeness(
                rect->0,
                client.rect->0,
            ) == 80;
            let kept = id is Some && lookup(window_map, id->0) is Some && lookup(
                window_map,
                id->0,
            )->0.address == client.address;
            let points = 5 + (if active {
                55int
            } else {
                0
            }) + (if full {
                55int
            } else if half {
                25
            } else {
                0
            }) + (if exact {
                30int
            } else if rough {
                18
            } else {
                0
            }) + (if kept {
                20int
            } else {
                0
            });
            &&& points <= 100 ==> points * 1_152_921_504_606_846_976 / 100 - 8192
                <= found.confidence <= points * 1_152_921_504_606_846_976 / 100 + 8192
            &&& points > 100 ==> found.confidence == 1_152_921_504_606_846_976
        }),
{
    let sighting = Sighting {
        title,
        focused,
        rect,
        cached: cached_address(window_map, id),
        active: state.active_address,
    };
    let at = lemma_candidate_of(sighting, state.clients, i);
    let client = state.clients[at].1;
    lemma_places(sighting, client);
    lemma_chain(sighting, client);
}

/// Places are like, roughly like, hardly like, or not like each other.
proof fn lemma_places(sighting: Sighting, client: ClientView)
    ensures
        sighting.place_reaches(client, 90) <==> sighting.rect is Some && client.rect is Some
            && rect_likeness(sighting.rect->0, client.rect->0) == 100,
        sighting.place_reaches(client, 70) && !sighting.place_reaches(client, 90)
            <==> sighting.rect is Some && client.rect is Some && rect_likeness(
            sighting.rect->0,
            client.rect->0,
        ) == 80,
{
}

proof fn lemma_sources(sighting: Sighting, client: ClientView)
    ensures
        ({
            let names = sighting.sources(client);
            let active = sighting.is_active(client);
            let full = sighting.title_reaches(client, 90);
            let half = sighting.title_reaches(client, 50);
            let exact = sighting.place_reaches(client, 90);
            let rough = sighting.place_reaches(client, 70) && !exact;
            let kept = sighting.is_cached(client);
            let a = if active {
                1int
            } else {
                0
            };
            let t = if full || half {
                1int
            } else {
                0
            };
            let p = if exact || rough {
                1int
            } else {
                0
            };
            let k = if kept {
                1int
            } else {
                0
            };
            &&& names.len() == 1 + a + t + p + k
            &&& names[0] == "chrome_class"@
            &&& active ==> names[1] == "hyprland_active_window"@
            &&& full ==> names[1 + a] == "exact_or_contained_title"@
            &&& half && !full ==> names[1 + a] == "partial_title"@
            &&& exact ==> names[1 + a + t] == "geometry_match"@
            &&& rough ==> names[1 + a + t] == "approximate_geometry"@
            &&& kept ==> names[1 + a + t + p] == "cached_mapping_continuity"@
        }),
{
}

/// The window of a candidate.
proof fn lemma_candidate_of(
    sighting: Sighting,
    clients: Seq<(Seq<char>, ClientView)>,
    i: int,
) -> (at: int)
    requires
        0 <= i < ranked(sighting.scored(clients)).len(),
    ensures
        0 <= at < clients.len(),
        ranked(sighting.scored(clients))[i] == sighting.candidate(clients[at].1),
{
    let found = ranked(sighting.scored(clients));
    law_candidates(sighting, clients, found[i]);
    assert(found.contains(found[i]));
    choose|k: int|
        0 <= k < clients.len() && chrome_class((#[trigger] clients[k]).1.class_name) && found[i]
            == sighting.candidate(clients[k].1)
}

/// A candidate is named for the focus just where Chrome and Hyprland both have it there, for its
/// title just where that is nine tenths like the tab's, for its place just where that is known and
/// like Chrome's, and for what was before just where the Chrome window was taken to be it.
pub proof fn law_named_evidence(
    title: Seq<char>,
    focused: bool,
    rect: Option<Rect>,
    id: Option<Seq<char>>,
    state: StateView,
    window_map: Seq<(Seq<char>, MappingView)>,
    i: int,
)
    requires
        0 <= i < candidates_for(title, focused, rect, id, state, window_map).len(),
    ensures
        ({
            let found = candidates_for(title, focused, rect, id, state, window_map)[i];
            let (shared, all) = title_likeness(title, found.client.title);
            &&& found.sources.contains("hyprland_active_window"@) <==> focused
                && state.active_address == Some(found.client.address)
            &&& found.sources.contains("exact_or_contained_title"@) <==> 10 * shared >= 9 * all
            &&& found.sources.contains("geometry_match"@) <==> rect is Some
                && found.client.rect is Some && rect_likeness(rect->0, found.client.rect->0) == 100
            &&& found.sources.contains("cached_mapping_continuity"@) <==> id is Some && lookup(
                window_map,
                id->0,
            ) is Some && lookup(window_map, id->0)->0.address == found.client.address
            &&& found.sources.no_duplicates()
        }),
{
    law_evidence(title, focused, rect, id, state, window_map, i);
    let found = candidates_for(title, focused, rect, id, state, window_map)[i];
    let (shared, all) = title_likeness(title, found.client.title);
    let places = rect is Some && found.client.rect is Some;
    lemma_names(
        found.sources,
        focused && state.active_address == Some(found.client.address),
        10 * shared >= 9 * all,
        2 * shared >= all,
        places && rect_likeness(rect->0, found.client.rect->0) == 100,
        places && rect_likeness(rect->0, found.client.rect->0) == 80,
        id is Some && lookup(window_map, id->0) is Some && lookup(window_map, id->0)->0.address
            == found.client.address,
    );
}

/// The names of the signs differ in length.
proof fn lemma_name_lengths()
    ensures
        "chrome_class"@.len() == 12,
        "hyprland_active_window"@.len() == 22,
        "exact_or_contained_title"@.len() == 24,
        "partial_title"@.len() == 13,
        "geometry_match"@.len() == 14,
        "approximate_geometry"@.len() == 20,
        "cached_mapping_continuity"@.len() == 25,
{
    reveal_strlit("chrome_class");
    reveal_strlit("hyprland_active_window");
    reveal_strlit("exact_or_contained_title");
    reveal_strlit("partial_title");
    reveal_strlit("geometry_match");
    reveal_strlit("approximate_geometry");
    reveal_strlit("cached_mapping_continuity");
}

proof fn lemma_names(
    names: Seq<Seq<char>>,
    active: bool,
    full: bool,
    half: bool,
    exact: bool,
    rough: bool,
    kept: bool,
)
    requires
        !(exact && rough),
        ({
            let a = if active {
                1int
            } else {
                0
            };
            let t = if full || half {
                1int
            } else {
                0
            };
            let p = if exact || rough {
                1int
            } else {
                0
            };
            let k = if kept {
                1int
            } else {
                0
            };
            &&& names.len() == 1 + a + t + p + k
            &&& names[0] == "chrome_class"@
            &&& active ==> names[1] == "hyprland_active_window"@
            &&& full ==> names[1 + a] == "exact_or_contained_title"@
            &&& half && !full ==> names[1 + a] == "partial_title"@
            &&& exact ==> names[1 + a + t] == "geometry_match"@
            &&& rough ==> names[1 + a + t] == "approximate_geometry"@
            &&& kept ==> names[1 + a + t + p] == "cached_mapping_continuity"@
        }),
    ensures
        names.contains("hyprland_active_window"@) <==> active,
        names.contains("exact_or_contained_title"@) <==> full,
        names.contains("geometry_match"@) <==> exact,
        names.contains("cached_mapping_continuity"@) <==> kept,
        names.no_duplicates(),
{
    lemma_name_lengths();
    let a = if active {
        1int
    } else {
        0
    };
    let t = if full || half {
        1int
    } else {
        0
    };
    let p = if exact || rough {
        1int
    } else {
        0
    };
    assert forall|j: int| 0 <= j < names.len() implies (#[trigger] names[j]).len() == 12 && j == 0
        || names[j].len() == 22 && j == a && active || (names[j].len() == 24 && full || names[j].len()
        == 13 && half && !full) && j == a + t || (names[j].len() == 14 && exact || names[j].len()
        == 20 && rough) && j == a + t + p || names[j].len() == 25 && kept && j == 1 + a + t + p by {
        if j == 0 {
        } else if j == a && active {
        } else if j == a + t && t == 1 {
        } else if j == a + t + p && p == 1 {
        }
    }
}

} // verus!
