//! How well each Hyprland window fits what Chrome says of one of its windows.

use vstd::prelude::*;

use crate::client::{chrome_class, looks_like_chrome, ClientView, HyprClient};
use crate::confidence::{added, capped, hundredths, lemma_added, Confidence};
use crate::geometry::{rect_likeness, rect_similarity, Rect};
use crate::json::viewed;
use crate::mapping::{MappingView, WindowMapping};
use crate::ratio::reaches;
use crate::similarity::{title_likeness, title_similarity};
use crate::state::{HyprlandState, StateView};
use crate::table::{lookup, TextMap};
use crate::text::{same_text, strings};

verus! {

/// A Hyprland window that may be the Chrome window in question, how sure that is, and what speaks
/// for it.
#[derive(Debug)]
pub struct CandidateScore {
    pub client: HyprClient,
    pub confidence: Confidence,
    pub sources: Vec<String>,
}

/// What a [`CandidateScore`] stands for.
pub ghost struct CandidateView {
    pub client: ClientView,
    pub confidence: nat,
    pub sources: Seq<Seq<char>>,
}

impl View for CandidateScore {
    type V = CandidateView;

    open spec fn view(&self) -> CandidateView {
        CandidateView {
            client: self.client@,
            confidence: self.confidence@,
            sources: strings(self.sources@),
        }
    }
}

/// The candidates that a list of scores stands for.
pub open spec fn candidate_views(scores: Seq<CandidateScore>) -> Seq<CandidateView> {
    scores.map_values(|score: CandidateScore| score@)
}

/// What is known when a Chrome window is looked for: the title of its active tab, whether Chrome
/// says that it has the focus, where Chrome says that it stands, the address that it had before,
/// and the address of Hyprland's active window.
pub ghost struct Sighting {
    pub title: Seq<char>,
    pub focused: bool,
    pub rect: Option<Rect>,
    pub cached: Option<Seq<char>>,
    pub active: Option<Seq<char>>,
}

/// The address that the Chrome window had before.
pub open spec fn cached_address(
    window_map: Seq<(Seq<char>, MappingView)>,
    chrome_window_id: Option<Seq<char>>,
) -> Option<Seq<char>> {
    match chrome_window_id {
        Some(id) => match lookup(window_map, id) {
            Some(mapping) => Some(mapping.address),
            None => None,
        },
        None => None,
    }
}

/// The condition that a window belongs to a browser of the Chrome family.
pub open spec fn of_chrome_family() -> spec_fn((Seq<char>, ClientView)) -> bool {
    |entry: (Seq<char>, ClientView)| chrome_class(entry.1.class_name)
}

impl Sighting {
    /// Whether Chrome has the focus in the window that Hyprland has it in.
    pub open spec fn is_active(self, client: ClientView) -> bool {
        self.focused && self.active == Some(client.address)
    }

    /// Whether the titles are at least so many hundredths alike.
    pub open spec fn title_reaches(self, client: ClientView, hundredths: int) -> bool {
        let likeness = title_likeness(self.title, client.title);
        reaches(likeness.0 as int, likeness.1 as int, hundredths)
    }

    /// Whether both places are known and are at least so many hundredths alike.
    pub open spec fn place_reaches(self, client: ClientView, hundredths: int) -> bool {
        match (self.rect, client.rect) {
            (Some(chrome), Some(hypr)) => rect_likeness(chrome, hypr) >= hundredths,
            _ => false,
        }
    }

    /// Whether this is the window that it was before.
    pub open spec fn is_cached(self, client: ClientView) -> bool {
        self.cached == Some(client.address)
    }

    /// How many hundredths the focus adds.
    pub open spec fn active_points(self, client: ClientView) -> nat {
        if self.is_active(client) {
            55
        } else {
            0
        }
    }

    /// How many hundredths the title adds.
    pub open spec fn title_points(self, client: ClientView) -> nat {
        if self.title_reaches(client, 90) {
            55
        } else if self.title_reaches(client, 50) {
            25
        } else {
            0
        }
    }

    /// How many hundredths the place adds.
    pub open spec fn place_points(self, client: ClientView) -> nat {
        if self.place_reaches(client, 90) {
            30
        } else if self.place_reaches(client, 70) {
            18
        } else {
            0
        }
    }

    /// How many hundredths the address that it had before adds.
    pub open spec fn cached_points(self, client: ClientView) -> nat {
        if self.is_cached(client) {
            20
        } else {
            0
        }
    }

    /// How sure it is that this is the window by its class, the focus and its title: 5 hundredths
    /// for its class, and what the other two add, one after the other.
    pub open spec fn before_place(self, client: ClientView) -> nat {
        added(added(hundredths(5), self.active_points(client)), self.title_points(client))
    }

    /// How sure it is that this is the window: by its class, the focus, its title, its place and
    /// the address that it had before, up to the whole.
    pub open spec fn confidence(self, client: ClientView) -> nat {
        capped(
            added(
                added(self.before_place(client), self.place_points(client)),
                self.cached_points(client),
            ),
        )
    }

    /// The names of the signs that speak for the window.
    pub open spec fn sources(self, client: ClientView) -> Seq<Seq<char>> {
        seq!["chrome_class"@] + (if self.is_active(client) {
            seq!["hyprland_active_window"@]
        } else {
            seq![]
        }) + (if self.title_reaches(client, 90) {
            seq!["exact_or_contained_title"@]
        } else if self.title_reaches(client, 50) {
            seq!["partial_title"@]
        } else {
            seq![]
        }) + (if self.place_reaches(client, 90) {
            seq!["geometry_match"@]
        } else if self.place_reaches(client, 70) {
            seq!["approximate_geometry"@]
        } else {
            seq![]
        }) + (if self.is_cached(client) {
            seq!["cached_mapping_continuity"@]
        } else {
            seq![]
        })
    }

    /// The window as a candidate.
    pub open spec fn candidate(self, client: ClientView) -> CandidateView {
        CandidateView {
            client,
            confidence: self.confidence(client),
            sources: self.sources(client),
        }
    }

    /// The windows of the Chrome family as candidates, in the order in which they are known.
    pub open spec fn scored(self, clients: Seq<(Seq<char>, ClientView)>) -> Seq<CandidateView> {
        clients.filter(of_chrome_family()).map_values(
            |entry: (Seq<char>, ClientView)| self.candidate(entry.1),
        )
    }
}

/// Whether a place in the focus history is more recent than another. A window without one is less
/// recent than any that has one.
pub open spec fn more_recent(left: Option<i64>, right: Option<i64>) -> bool {
    match (left, right) {
        (Some(l), Some(r)) => l < r,
        (Some(_), None) => true,
        _ => false,
    }
}

/// Whether a candidate is better than another: surer, or as sure and more recently in focus.
pub open spec fn better(left: CandidateView, right: CandidateView) -> bool {
    left.confidence > right.confidence || (left.confidence == right.confidence && more_recent(
        left.client.focus_history_id,
        right.client.focus_history_id,
    ))
}

/// The list with `candidate` in front of the first one that it is better than.
pub open spec fn placed(list: Seq<CandidateView>, candidate: CandidateView) -> Seq<CandidateView>
    decreases list.len(),
{
    if list.len() == 0 {
        seq![candidate]
    } else if better(candidate, list.first()) {
        seq![candidate] + list
    } else {
        seq![list.first()] + placed(list.drop_first(), candidate)
    }
}

/// The candidates from the best to the worst. Of two that are equally good the one that came first
/// stays first.
pub open spec fn ranked(candidates: Seq<CandidateView>) -> Seq<CandidateView>
    decreases candidates.len(),
{
    if candidates.len() == 0 {
        Seq::empty()
    } else {
        placed(ranked(candidates.drop_last()), candidates.last())
    }
}

/// No candidate is better than one in front of it.
pub open spec fn best_first(list: Seq<CandidateView>) -> bool {
    forall|i: int, j: int| 0 <= i < j < list.len() ==> !better(list[j], list[i])
}

/// Where `placed` puts a candidate.
proof fn lemma_placed_at(list: Seq<CandidateView>, candidate: CandidateView, at: int)
    requires
        0 <= at <= list.len(),
        forall|i: int| 0 <= i < at ==> !better(candidate, #[trigger] list[i]),
        at < list.len() ==> better(candidate, list[at]),
    ensures
        placed(list, candidate) == list.insert(at, candidate),
    decreases list.len(),
{
    if at == 0 {
        if list.len() == 0 {
            assert(list.insert(0, candidate) =~= seq![candidate]);
        } else {
            assert(seq![candidate] + list =~= list.insert(0, candidate));
        }
    } else {
        let rest = list.drop_first();
        assert(!better(candidate, list[0]));
        assert forall|i: int| 0 <= i < at - 1 implies !better(candidate, #[trigger] rest[i]) by {
            assert(rest[i] == list[i + 1]);
        }
        lemma_placed_at(rest, candidate, at - 1);
        assert(seq![list.first()] + rest.insert(at - 1, candidate) =~= list.insert(at, candidate));
    }
}

/// The first candidate that another one is better than, or the length of the list.
proof fn first_worse(list: Seq<CandidateView>, candidate: CandidateView) -> (at: int)
    ensures
        0 <= at <= list.len(),
        forall|i: int| 0 <= i < at ==> !better(candidate, #[trigger] list[i]),
        at < list.len() ==> better(candidate, list[at]),
    decreases list.len(),
{
    if list.len() == 0 {
        0
    } else if better(candidate, list.first()) {
        0
    } else {
        let rest = list.drop_first();
        let at = first_worse(rest, candidate) + 1;
        assert forall|i: int| 0 <= i < at implies !better(candidate, #[trigger] list[i]) by {
            if i > 0 {
                assert(list[i] == rest[i - 1]);
            }
        }
        at
    }
}

/// Ranking puts the best first, and neither adds nor drops a candidate.
pub proof fn law_ranked(candidates: Seq<CandidateView>)
    ensures
        best_first(ranked(candidates)),
        ranked(candidates).to_multiset() == candidates.to_multiset(),
        ranked(candidates).len() == candidates.len(),
    decreases candidates.len(),
{
    broadcast use vstd::seq_lib::group_to_multiset_ensures;

    if candidates.len() > 0 {
        let before = ranked(candidates.drop_last());
        let candidate = candidates.last();
        law_ranked(candidates.drop_last());
        let at = first_worse(before, candidate);
        lemma_placed_at(before, candidate, at);
        let after = before.insert(at, candidate);
        assert forall|i: int, j: int| 0 <= i < j < after.len() implies !better(
            after[j],
            after[i],
        ) by {
            if j < at {
                assert(!better(before[j], before[i]));
            } else if j == at {
                assert(!better(candidate, before[i]));
            } else if i < at {
                assert(!better(before[j - 1], before[i]));
            } else if i == at {
                assert(better(candidate, before[at]));
                assert(at < j - 1 ==> !better(before[j - 1], before[at]));
            } else {
                assert(!better(before[j - 1], before[i - 1]));
            }
        }
        assert(before.insert(at, candidate).to_multiset() =~= before.to_multiset().insert(
            candidate,
        ));
        assert(candidates =~= candidates.drop_last().push(candidate));
    } else {
        assert(candidates =~= Seq::empty());
    }
}

/// The Hyprland windows that may be the Chrome window with the given id, from the best to the
/// worst: by the title of its active tab, whether Chrome says that it has the focus, and where
/// Chrome says that it stands.
pub open spec fn candidates_for(
    title: Seq<char>,
    focused: bool,
    rect: Option<Rect>,
    chrome_window_id: Option<Seq<char>>,
    state: StateView,
    window_map: Seq<(Seq<char>, MappingView)>,
) -> Seq<CandidateView> {
    ranked(
        (Sighting {
            title,
            focused,
            rect,
            cached: cached_address(window_map, chrome_window_id),
            active: state.active_address,
        }).scored(state.clients),
    )
}

/// Adds a sign.
fn push_source(sources: &mut Vec<String>, name: &str)
    ensures
        strings(final(sources)@) == strings(old(sources)@).push(name@),
{
    sources.push(name.to_owned());
    assert(strings(sources@) =~= strings(old(sources)@).push(name@));
}

/// Whether `address` is the address that is looked for.
fn is_address(wanted: Option<&str>, address: &String) -> (r: bool)
    ensures
        r == (viewed(wanted) == Some(address@)),
{
    match wanted {
        Some(text) => same_text(text, address.as_str()),
        None => false,
    }
}

/// The window as a candidate.
pub fn score_client(
    client: &HyprClient,
    tab_title: &str,
    chrome_window_focused: bool,
    chrome_rect: Option<&Rect>,
    cached: Option<&str>,
    active: Option<&str>,
) -> (score: CandidateScore)
    ensures
        score@ == (Sighting {
            title: tab_title@,
            focused: chrome_window_focused,
            rect: match chrome_rect {
                Some(rect) => Some(*rect),
                None => None,
            },
            cached: viewed(cached),
            active: viewed(active),
        }).candidate(client@),
{
    let ghost sighting = Sighting {
        title: tab_title@,
        focused: chrome_window_focused,
        rect: match chrome_rect {
            Some(rect) => Some(*rect),
            None => None,
        },
        cached: viewed(cached),
        active: viewed(active),
    };
    let mut confidence = Confidence::hundredths(5);
    proof {
        lemma_added(0, 5);
    }
    let mut sources: Vec<String> = Vec::new();
    push_source(&mut sources, "chrome_class");
    if chrome_window_focused && is_address(active, &client.address) {
        confidence = confidence.with_points(55);
        push_source(&mut sources, "hyprland_active_window");
    }
    let title_score = title_similarity(tab_title, client.title.as_str());
    if title_score.at_least(90) {
        confidence = confidence.with_points(55);
        push_source(&mut sources, "exact_or_contained_title");
    } else if title_score.at_least(50) {
        confidence = confidence.with_points(25);
        push_source(&mut sources, "partial_title");
    }
    if let (Some(chrome), Some(hypr)) = (chrome_rect, &client.rect) {
        let geometry_score = rect_similarity(chrome, hypr);
        if geometry_score.at_least(90) {
            confidence = confidence.with_points(30);
            push_source(&mut sources, "geometry_match");
        } else if geometry_score.at_least(70) {
            confidence = confidence.with_points(18);
            push_source(&mut sources, "approximate_geometry");
        }
    }
    if is_address(cached, &client.address) {
        confidence = confidence.with_points(20);
        push_source(&mut sources, "cached_mapping_continuity");
    }
    assert(strings(sources@) =~= sighting.sources(client@));
    CandidateScore { client: client.clone(), confidence: confidence.capped(), sources }
}

/// Whether a candidate is better than another.
fn is_better(left: &CandidateScore, right: &CandidateScore) -> (r: bool)
    ensures
        r == better(left@, right@),
{
    if left.confidence.units != right.confidence.units {
        return left.confidence.units > right.confidence.units;
    }
    match (left.client.focus_history_id, right.client.focus_history_id) {
        (Some(l), Some(r)) => l < r,
        (Some(_), None) => true,
        _ => false,
    }
}

/// Puts a candidate in front of the first one that it is better than.
fn place(scores: &mut Vec<CandidateScore>, score: CandidateScore)
    ensures
        candidate_views(final(scores)@) == placed(candidate_views(old(scores)@), score@),
{
    let ghost list = candidate_views(scores@);
    let ghost candidate = score@;
    let mut at: usize = 0;
    while at < scores.len() && !is_better(&score, &scores[at])
        invariant
            at <= scores@.len(),
            list == candidate_views(scores@),
            candidate == score@,
            forall|i: int| 0 <= i < at ==> !better(candidate, #[trigger] list[i]),
        decreases scores@.len() - at,
    {
        at = at + 1;
    }
    proof {
        lemma_placed_at(list, candidate, at as int);
    }
    scores.insert(at, score);
    assert(candidate_views(scores@) =~= list.insert(at as int, candidate));
}

/// The Hyprland windows that may be the Chrome window in question, from the best to the worst.
pub fn score_hyprland_candidates(
    tab_title: &str,
    chrome_window_focused: bool,
    chrome_rect: Option<&Rect>,
    chrome_window_id: Option<&str>,
    hyprland: &HyprlandState,
    window_map: &TextMap<WindowMapping>,
) -> (scores: Vec<CandidateScore>)
    ensures
        candidate_views(scores@) == candidates_for(
            tab_title@,
            chrome_window_focused,
            match chrome_rect {
                Some(rect) => Some(*rect),
                None => None,
            },
            viewed(chrome_window_id),
            hyprland@,
            window_map@,
        ),
        best_first(candidate_views(scores@)),
{
    let cached: Option<&str> = match chrome_window_id {
        Some(id) => match window_map.get(id) {
            Some(mapping) => Some(mapping.address.as_str()),
            None => None,
        },
        None => None,
    };
    let active: Option<&str> = match &hyprland.active_address {
        Some(address) => Some(address.as_str()),
        None => None,
    };
    let ghost sighting = Sighting {
        title: tab_title@,
        focused: chrome_window_focused,
        rect: match chrome_rect {
            Some(rect) => Some(*rect),
            None => None,
        },
        cached: cached_address(window_map@, viewed(chrome_window_id)),
        active: hyprland@.active_address,
    };
    let ghost clients = hyprland@.clients;
    let mut scores: Vec<CandidateScore> = Vec::new();
    let mut i: usize = 0;
    proof {
        reveal(Seq::filter);
        assert(sighting.scored(clients.take(0)) =~= Seq::empty());
        assert(candidate_views(scores@) =~= Seq::empty());
    }
    while i < hyprland.clients.len()
        invariant
            i <= clients.len(),
            clients == hyprland.clients@,
            viewed(cached) == sighting.cached,
            viewed(active) == sighting.active,
            sighting == (Sighting {
                title: tab_title@,
                focused: chrome_window_focused,
                rect: match chrome_rect {
                    Some(rect) => Some(*rect),
                    None => None,
                },
                cached: viewed(cached),
                active: viewed(active),
            }),
            candidate_views(scores@) == ranked(sighting.scored(clients.take(i as int))),
        decreases clients.len() - i,
    {
        let client = hyprland.clients.value_at(i);
        let ghost before = sighting.scored(clients.take(i as int));
        proof {
            reveal(Seq::filter);
            assert(clients.take(i + 1).drop_last() =~= clients.take(i as int));
            assert(clients.take(i + 1).last() == clients[i as int]);
        }
        if looks_like_chrome(client.class_name.as_str()) {
            let score = score_client(
                client,
                tab_title,
                chrome_window_focused,
                chrome_rect,
                cached,
                active,
            );
            proof {
                let after = sighting.scored(clients.take(i + 1));
                assert(after =~= before.push(score@));
                assert(after.drop_last() =~= before);
            }
            place(&mut scores, score);
        } else {
            assert(sighting.scored(clients.take(i + 1)) =~= before);
        }
        i = i + 1;
    }
    proof {
        assert(clients.take(i as int) =~= clients);
        law_ranked(sighting.scored(clients));
    }
    scores
}

} // verus!
