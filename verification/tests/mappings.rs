use chrome_window_dbus_bridge::client::HyprClient;
use chrome_window_dbus_bridge::confidence::{Confidence, WHOLE};
use chrome_window_dbus_bridge::geometry::Rect;
use chrome_window_dbus_bridge::json::{Json, Number};
use chrome_window_dbus_bridge::mapping::{
    cached_mapping_json, prune_stale_window_mappings, update_mapping_from_candidates,
    WindowMapping,
};
use chrome_window_dbus_bridge::scoring::{score_hyprland_candidates, CandidateScore};
use chrome_window_dbus_bridge::state::HyprlandState;
use chrome_window_dbus_bridge::table::TextMap;

fn client(address: &str, title: &str, rect: Rect) -> HyprClient {
    HyprClient {
        address: address.to_owned(),
        class_name: "google-chrome".to_owned(),
        title: title.to_owned(),
        pid: Some(100),
        workspace_id: Some(1),
        focus_history_id: Some(0),
        rect: Some(rect),
    }
}

fn state_with_clients(active_address: Option<&str>, clients: Vec<HyprClient>) -> HyprlandState {
    let mut table = TextMap::new();
    for client in clients {
        table.insert(client.address.clone(), client);
    }
    HyprlandState {
        active_address: active_address.map(ToOwned::to_owned),
        clients: table,
        ..HyprlandState::default()
    }
}

fn place(x: i64, y: i64, width: i64, height: i64) -> Rect {
    Rect {
        x,
        y,
        width,
        height,
    }
}

fn mapping(address: &str, confidence: u64) -> WindowMapping {
    WindowMapping {
        address: address.to_owned(),
        confidence: Confidence::hundredths(confidence),
        sources: vec!["previous".to_owned()],
    }
}

fn candidate(address: &str, confidence: u64) -> CandidateScore {
    CandidateScore {
        client: client(address, "Any", place(0, 0, 10, 10)),
        confidence: Confidence::hundredths(confidence),
        sources: vec!["chrome_class".to_owned()],
    }
}

fn as_double(confidence: Confidence) -> f64 {
    confidence.units as f64 / WHOLE as f64
}

#[test]
fn focused_active_hyprland_window_gets_high_confidence_mapping() {
    let hyprland = state_with_clients(
        Some("0xaaa"),
        vec![client(
            "0xaaa",
            "Example - Google Chrome",
            place(0, 0, 1200, 800),
        )],
    );

    let scores = score_hyprland_candidates(
        "Example - Google Chrome",
        true,
        Some(&place(0, 0, 1200, 800)),
        Some("7"),
        &hyprland,
        &TextMap::new(),
    );

    assert_eq!(scores[0].client.address, "0xaaa");
    assert!(scores[0].confidence >= Confidence::hundredths(95));
    assert!(scores[0]
        .sources
        .contains(&"hyprland_active_window".to_owned()));
    assert!(scores[0].sources.contains(&"geometry_match".to_owned()));
}

#[test]
fn geometry_breaks_ties_between_similar_chrome_titles() {
    let matching_rect = place(20, 30, 900, 700);
    let hyprland = state_with_clients(
        None,
        vec![
            client("0xaaa", "Docs - Google Chrome", matching_rect.clone()),
            client("0xbbb", "Docs - Google Chrome", place(1500, 30, 900, 700)),
        ],
    );

    let scores = score_hyprland_candidates(
        "Docs - Google Chrome",
        false,
        Some(&matching_rect),
        Some("9"),
        &hyprland,
        &TextMap::new(),
    );

    assert_eq!(scores[0].client.address, "0xaaa");
    assert!(scores[0].confidence > scores[1].confidence);
    assert!(scores[0].sources.contains(&"geometry_match".to_owned()));
}

#[test]
fn cached_mapping_continuity_can_preserve_a_known_window() {
    let hyprland = state_with_clients(
        None,
        vec![client(
            "0xaaa",
            "Different title after navigation",
            place(0, 0, 1000, 700),
        )],
    );
    let mut mappings = TextMap::new();
    mappings.insert("7".to_owned(), mapping("0xaaa", 90));

    let scores = score_hyprland_candidates(
        "Unrelated active tab title",
        false,
        None,
        Some("7"),
        &hyprland,
        &mappings,
    );
    let mapped = update_mapping_from_candidates(Some("7"), &scores, &mut mappings);

    assert!(mapped.is_some());
    assert_eq!(mappings.get("7").unwrap().address, "0xaaa");
    assert!(mappings
        .get("7")
        .unwrap()
        .sources
        .contains(&"cached_mapping_continuity".to_owned()));
}

#[test]
fn stronger_candidate_evicts_weaker_rival_mapping() {
    let hyprland = state_with_clients(
        Some("0xaaa"),
        vec![client(
            "0xaaa",
            "Shared Page - Google Chrome",
            place(0, 0, 1000, 700),
        )],
    );
    let mut mappings = TextMap::new();
    mappings.insert("7".to_owned(), mapping("0xaaa", 30));

    let scores = score_hyprland_candidates(
        "Shared Page - Google Chrome",
        true,
        None,
        Some("9"),
        &hyprland,
        &mappings,
    );
    let mapped = update_mapping_from_candidates(Some("9"), &scores, &mut mappings);

    assert!(mapped.is_some());
    assert_eq!(mappings.get("9").unwrap().address, "0xaaa");
    assert!(!mappings.contains_key("7"));
}

#[test]
fn weaker_candidate_does_not_steal_stronger_rival_mapping() {
    let mut recently_focused = client("0xaaa", "Docs - Google Chrome", place(0, 0, 1000, 700));
    recently_focused.focus_history_id = Some(0);
    let mut other = client("0xbbb", "Docs - Google Chrome", place(1500, 0, 1000, 700));
    other.focus_history_id = Some(1);

    let hyprland = state_with_clients(None, vec![recently_focused, other]);
    let mut mappings = TextMap::new();
    mappings.insert("7".to_owned(), mapping("0xaaa", 90));

    let scores = score_hyprland_candidates(
        "Docs - Google Chrome",
        false,
        None,
        Some("9"),
        &hyprland,
        &mappings,
    );
    let mapped = update_mapping_from_candidates(Some("9"), &scores, &mut mappings);

    assert!(mapped.is_some());
    assert_eq!(mappings.get("9").unwrap().address, "0xbbb");
    assert_eq!(mappings.get("7").unwrap().address, "0xaaa");
}

#[test]
fn equal_confidence_candidates_order_by_focus_history() {
    let mut older = client("0xaaa", "Docs - Google Chrome", place(0, 0, 1000, 700));
    older.focus_history_id = Some(4);
    let mut newer = client("0xbbb", "Docs - Google Chrome", place(1500, 0, 1000, 700));
    newer.focus_history_id = Some(1);

    let hyprland = state_with_clients(None, vec![older, newer]);

    let scores = score_hyprland_candidates(
        "Docs - Google Chrome",
        false,
        None,
        Some("9"),
        &hyprland,
        &TextMap::new(),
    );

    assert_eq!(scores[0].confidence, scores[1].confidence);
    assert_eq!(scores[0].client.address, "0xbbb");
}

#[test]
fn stale_mappings_are_removed_when_hyprland_client_disappears() {
    let hyprland = state_with_clients(None, Vec::new());
    let mut mappings = TextMap::new();
    mappings.insert("7".to_owned(), mapping("0xdead", 90));

    prune_stale_window_mappings(&mut mappings, &hyprland);

    assert!(mappings.is_empty());
}

#[test]
fn a_window_without_focus_history_comes_after_one_that_has_it() {
    let mut unknown = client("0xaaa", "Docs", place(0, 0, 10, 10));
    unknown.focus_history_id = None;
    let mut known = client("0xbbb", "Docs", place(0, 0, 10, 10));
    known.focus_history_id = Some(i64::MAX);
    let hyprland = state_with_clients(None, vec![unknown, known]);

    let scores =
        score_hyprland_candidates("Docs", false, None, None, &hyprland, &TextMap::new());

    assert_eq!(scores[0].client.address, "0xbbb");
    assert_eq!(scores[1].client.address, "0xaaa");
}

#[test]
fn the_signs_add_up_to_the_whole_at_most() {
    let hyprland = state_with_clients(
        Some("0xaaa"),
        vec![
            client("0xaaa", "Example", place(0, 0, 100, 100)),
            client("0xbbb", "Example of something else", place(20, 0, 100, 100)),
            client("0xccc", "Quite another title", place(9000, 0, 100, 100)),
        ],
    );
    let mut mappings = TextMap::new();
    mappings.insert("7".to_owned(), mapping("0xccc", 50));

    let scores = score_hyprland_candidates(
        "example",
        true,
        Some(&place(0, 0, 100, 100)),
        Some("7"),
        &hyprland,
        &mappings,
    );

    assert_eq!(scores.len(), 3);
    assert_eq!(scores[0].client.address, "0xaaa");
    assert_eq!(scores[0].confidence, Confidence::hundredths(100));
    assert_eq!(
        scores[0].sources,
        vec![
            "chrome_class",
            "hyprland_active_window",
            "exact_or_contained_title",
            "geometry_match"
        ]
    );
    assert_eq!(scores[1].client.address, "0xbbb");
    assert_eq!(as_double(scores[1].confidence), 0.05 + 0.55 + 0.18);
    assert_eq!(
        scores[1].sources,
        vec![
            "chrome_class",
            "exact_or_contained_title",
            "approximate_geometry"
        ]
    );
    assert_eq!(scores[2].client.address, "0xccc");
    assert_eq!(scores[2].confidence, Confidence::hundredths(25));
    assert_eq!(
        scores[2].sources,
        vec!["chrome_class", "cached_mapping_continuity"]
    );
}

#[test]
fn half_of_the_words_is_a_partial_title() {
    let hyprland = state_with_clients(
        None,
        vec![client("0xaaa", "alpha beta gamma delta", place(0, 0, 1, 1))],
    );

    let scores = score_hyprland_candidates(
        "alpha beta omega sigma",
        false,
        None,
        None,
        &hyprland,
        &TextMap::new(),
    );

    assert_eq!(scores[0].confidence, Confidence::hundredths(30));
    assert_eq!(scores[0].sources, vec!["chrome_class", "partial_title"]);
}

#[test]
fn only_windows_of_the_chrome_family_are_candidates() {
    let mut terminal = client("0xaaa", "Example", place(0, 0, 1, 1));
    terminal.class_name = "kitty".to_owned();
    let hyprland = state_with_clients(
        None,
        vec![terminal, client("0xbbb", "Example", place(0, 0, 1, 1))],
    );

    let scores =
        score_hyprland_candidates("Example", false, None, None, &hyprland, &TextMap::new());

    assert_eq!(scores.len(), 1);
    assert_eq!(scores[0].client.address, "0xbbb");
}

#[test]
fn a_window_that_has_the_focus_in_hyprland_only_gets_nothing_for_it() {
    let hyprland = state_with_clients(
        Some("0xaaa"),
        vec![client("0xaaa", "", place(0, 0, 1, 1))],
    );

    let scores = score_hyprland_candidates("x", false, None, None, &hyprland, &TextMap::new());

    assert_eq!(scores[0].confidence, Confidence::hundredths(5));
}

#[test]
fn a_mapping_must_be_sure_enough() {
    let mut mappings = TextMap::new();

    assert!(
        update_mapping_from_candidates(Some("7"), &[candidate("0xaaa", 44)], &mut mappings)
            .is_none()
    );
    assert!(mappings.is_empty());
    assert!(
        update_mapping_from_candidates(Some("7"), &[candidate("0xaaa", 45)], &mut mappings)
            .is_some()
    );
    assert_eq!(mappings.get("7").unwrap().confidence, Confidence::hundredths(45));
}

#[test]
fn a_mapping_that_was_there_before_need_not_be_so_sure() {
    let mut mappings = TextMap::new();
    mappings.insert("7".to_owned(), mapping("0xaaa", 90));

    assert!(
        update_mapping_from_candidates(Some("7"), &[candidate("0xaaa", 24)], &mut mappings)
            .is_none()
    );
    assert_eq!(mappings.get("7").unwrap().confidence, Confidence::hundredths(90));
    assert!(
        update_mapping_from_candidates(Some("7"), &[candidate("0xaaa", 25)], &mut mappings)
            .is_some()
    );
    assert_eq!(mappings.get("7").unwrap().confidence, Confidence::hundredths(25));
    assert_eq!(mappings.len(), 1);
}

#[test]
fn there_is_no_mapping_without_an_id_or_a_candidate() {
    let mut mappings = TextMap::new();

    assert!(update_mapping_from_candidates(None, &[candidate("0xaaa", 90)], &mut mappings)
        .is_none());
    assert!(update_mapping_from_candidates(Some("7"), &[], &mut mappings).is_none());
    assert!(mappings.is_empty());
}

#[test]
fn a_rival_that_is_just_as_sure_keeps_its_mapping() {
    let mut mappings = TextMap::new();
    mappings.insert("7".to_owned(), mapping("0xaaa", 60));

    let mapped =
        update_mapping_from_candidates(Some("9"), &[candidate("0xaaa", 60)], &mut mappings);

    assert!(mapped.is_some());
    assert_eq!(mappings.get("9").unwrap().address, "0xaaa");
    assert_eq!(mappings.get("7").unwrap().address, "0xaaa");
}

#[test]
fn the_next_best_window_must_be_sure_enough_too() {
    let mut mappings = TextMap::new();
    mappings.insert("7".to_owned(), mapping("0xaaa", 90));

    let mapped = update_mapping_from_candidates(
        Some("9"),
        &[candidate("0xaaa", 60), candidate("0xbbb", 30)],
        &mut mappings,
    );

    assert!(mapped.is_none());
    assert!(!mappings.contains_key("9"));
    assert_eq!(mappings.get("7").unwrap().confidence, Confidence::hundredths(90));
}

#[test]
fn a_mapping_is_published_with_its_sources() {
    let mut mappings = TextMap::new();
    mappings.insert("7".to_owned(), mapping("0xaaa", 60));

    let published = cached_mapping_json(Some("7"), &mappings).unwrap();

    assert_eq!(published.get_str("backend"), Some("hyprland"));
    assert_eq!(published.get_str("window_id"), Some("0xaaa"));
    let Json::Number(Number::Real(text)) = published.get("confidence").unwrap() else {
        panic!("a confidence is a number");
    };
    assert_eq!(text.parse::<f64>(), Ok(0.6));
    let sources = published.get("sources").unwrap().as_array().unwrap();
    assert_eq!(sources.len(), 1);
    assert_eq!(sources[0].as_str(), Some("previous"));
    assert!(cached_mapping_json(Some("8"), &mappings).is_none());
    assert!(cached_mapping_json(None, &mappings).is_none());
    assert!(matches!(published, Json::Object(_)));
}

#[test]
fn forgetting_keeps_the_mappings_to_known_windows() {
    let hyprland =
        state_with_clients(None, vec![client("0xaaa", "Example", place(0, 0, 1, 1))]);
    let mut mappings = TextMap::new();
    mappings.insert("7".to_owned(), mapping("0xdead", 90));
    mappings.insert("8".to_owned(), mapping("0xaaa", 50));
    mappings.insert("9".to_owned(), mapping("0xbeef", 70));

    prune_stale_window_mappings(&mut mappings, &hyprland);

    assert_eq!(mappings.len(), 1);
    assert_eq!(mappings.get("8").unwrap().confidence, Confidence::hundredths(50));
    prune_stale_window_mappings(&mut mappings, &hyprland);
    assert_eq!(mappings.len(), 1);
}

#[test]
fn scores_add_up_as_doubles() {
    let chrome = place(0, 0, 100, 100);
    for (active, active_points) in [(false, 0.0), (true, 0.55)] {
        for (title, title_points) in [
            ("alpha beta", 0.55),
            ("alpha omega zeta", 0.25),
            ("kappa lambda", 0.0),
        ] {
            for (x, place_points) in [(0, 0.3), (20, 0.18), (2000, 0.0)] {
                for (cached, cached_points) in [(false, 0.0), (true, 0.2)] {
                    let hyprland = state_with_clients(
                        Some(if active { "0xaaa" } else { "0xother" }),
                        vec![client("0xaaa", title, place(x, 0, 100, 100))],
                    );
                    let mut mappings = TextMap::new();
                    if cached {
                        mappings.insert("7".to_owned(), mapping("0xaaa", 90));
                    }
                    let tab = if title_points == 0.25 {
                        "alpha omega theta iota"
                    } else {
                        "alpha beta"
                    };

                    let scores = score_hyprland_candidates(
                        tab,
                        true,
                        Some(&chrome),
                        Some("7"),
                        &hyprland,
                        &mappings,
                    );

                    let mut expected: f64 = 0.05;
                    for points in [active_points, title_points, place_points, cached_points] {
                        expected += points;
                    }
                    assert_eq!(as_double(scores[0].confidence), expected.min(1.0));
                }
            }
        }
    }
}

#[test]
fn a_full_title_is_surer_than_a_partial_one_in_its_place() {
    let mut titled = client("0xaaa", "alpha beta", place(5000, 0, 100, 100));
    titled.focus_history_id = Some(9);
    let mut placed = client("0xbbb", "alpha gamma", place(0, 0, 100, 100));
    placed.focus_history_id = Some(0);
    let hyprland = state_with_clients(None, vec![placed, titled]);

    let scores = score_hyprland_candidates(
        "alpha beta",
        false,
        Some(&place(0, 0, 100, 100)),
        None,
        &hyprland,
        &TextMap::new(),
    );

    assert_eq!(scores[0].client.address, "0xaaa");
    assert_eq!(as_double(scores[0].confidence), 0.6000000000000001);
    assert_eq!(scores[1].client.address, "0xbbb");
    assert_eq!(as_double(scores[1].confidence), 0.6);
    assert_eq!(scores[1].sources, vec!["chrome_class", "partial_title", "geometry_match"]);
}

#[test]
fn hundredths_are_the_nearest_doubles() {
    for n in 0..=100 {
        assert_eq!(as_double(Confidence::hundredths(n)), n as f64 / 100.0);
    }
}

#[test]
fn scores_are_written_with_all_their_decimals() {
    assert_eq!(Confidence::hundredths(100).decimal(), "1.0");
    assert_eq!(Confidence::hundredths(0).decimal(), "0.0");
    assert_eq!(Confidence::hundredths(25).decimal(), "0.25");
    assert_eq!(
        Confidence::hundredths(5).decimal(),
        "0.05000000000000000277555756156289135105907917022705078125"
    );
    for n in 1..=100 {
        let score = Confidence::hundredths(n).plus(Confidence::hundredths(55));
        assert_eq!(score.decimal().parse::<f64>(), Ok(n as f64 / 100.0 + 0.55));
        assert_eq!(score.capped(), score.min(Confidence { units: WHOLE }));
    }
}
