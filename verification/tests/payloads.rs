use chrome_window_dbus_bridge::client::{
    compact_hypr_client, hypr_client_from_value, HyprClient,
};
use chrome_window_dbus_bridge::codec::{parse_json, write_json};
use chrome_window_dbus_bridge::confidence::Confidence;
use chrome_window_dbus_bridge::context::{
    build_wm_context, candidate_score_json, Surroundings, X11Active,
};
use chrome_window_dbus_bridge::enrich::{PayloadEnricher, DEFAULT_SCHEMA};
use chrome_window_dbus_bridge::geometry::{
    rect_from_chrome_window, rect_from_hypr_client, rect_json, Rect,
};
use chrome_window_dbus_bridge::json::{
    insert_optional_i64, insert_optional_string, json_array, json_integer, json_object, json_text,
    value_to_string, Json, Number,
};
use chrome_window_dbus_bridge::publish::{SharedDbusState, Signal};
use chrome_window_dbus_bridge::request::{delivery_reply, handle_update, route_path};
use chrome_window_dbus_bridge::scoring::CandidateScore;
use chrome_window_dbus_bridge::state::HyprlandState;
use chrome_window_dbus_bridge::table::TextMap;

const CHECKED: &str = "2024-05-06T07:08:09Z";
const RECEIVED: &str = "2024-05-06T07:08:10Z";

fn field(key: &str, value: Json) -> (String, Json) {
    (key.to_owned(), value)
}

fn object(fields: Vec<(&str, Json)>) -> Json {
    json_object(
        fields
            .into_iter()
            .map(|(key, value)| field(key, value))
            .collect(),
    )
}

fn client(address: &str, title: &str) -> HyprClient {
    HyprClient {
        address: address.to_owned(),
        class_name: "google-chrome".to_owned(),
        title: title.to_owned(),
        pid: Some(100),
        workspace_id: None,
        focus_history_id: Some(0),
        rect: Some(Rect {
            x: 1,
            y: -2,
            width: 3,
            height: 4,
        }),
    }
}

fn state_with_clients(active_address: Option<&str>, clients: Vec<HyprClient>) -> HyprlandState {
    let mut table = TextMap::new();
    for client in clients {
        table.insert(client.address.clone(), client);
    }
    HyprlandState {
        active_address: active_address.map(ToOwned::to_owned),
        clients: table,
        ..HyprlandState::default()
    }
}

fn surroundings(hyprctl_installed: bool, xdotool_installed: bool) -> Surroundings {
    Surroundings {
        checked_at: CHECKED.to_owned(),
        hyprctl_installed,
        xdotool_installed,
        x11_active: None,
    }
}

fn payload(id: Json, title: &str) -> Json {
    object(vec![
        ("tab", object(vec![("title", json_text(title))])),
        (
            "chrome_window",
            object(vec![
                ("id", id),
                ("focused", Json::Bool(true)),
                ("left", json_integer(1)),
                ("top", json_integer(-2)),
                ("width", json_integer(3)),
                ("height", json_integer(4)),
            ]),
        ),
    ])
}

fn texts(value: &Json) -> Vec<&str> {
    value
        .as_array()
        .unwrap()
        .iter()
        .map(|item| item.as_str().unwrap())
        .collect()
}

fn shown(value: &Json) -> String {
    format!("{value:?}")
}

#[test]
fn a_payload_gets_the_window_it_is_about() {
    let hyprland = state_with_clients(Some("0xaaa"), vec![client("0xaaa", "Example - Chrome")]);
    let mut enricher = PayloadEnricher::new();

    let enriched = enricher.enrich(
        payload(json_integer(7), "Example"),
        &hyprland,
        &surroundings(true, false),
        RECEIVED,
    );

    let bridge = enriched.get("bridge").unwrap();
    assert_eq!(bridge.get_str("received_at"), Some(RECEIVED));
    assert_eq!(bridge.get_str("schema"), Some(DEFAULT_SCHEMA));
    assert_eq!(bridge.get_i64("known_chrome_window_mappings"), Some(1));
    let mapped = bridge.get("mapped_window").unwrap();
    assert_eq!(mapped.get_str("backend"), Some("hyprland"));
    assert_eq!(mapped.get_str("window_id"), Some("0xaaa"));
    assert_eq!(
        shown(mapped.get("confidence").unwrap()),
        "Number(Real(\"1.0\"))"
    );
    assert_eq!(
        texts(mapped.get("sources").unwrap()),
        vec![
            "chrome_class",
            "hyprland_active_window",
            "exact_or_contained_title",
            "geometry_match"
        ]
    );
    assert_eq!(
        enriched.get("tab").unwrap().get_str("title"),
        Some("Example")
    );
    let wm = enriched.get("wm").unwrap();
    assert_eq!(wm.get_str("checked_at"), Some(CHECKED));
    assert_eq!(texts(wm.get("available_backends").unwrap()), vec!["hyprland"]);
    assert_eq!(enricher.window_map.get("7").unwrap().address, "0xaaa");
}

#[test]
fn what_was_known_is_published_where_nothing_new_is() {
    let hyprland = state_with_clients(Some("0xaaa"), vec![client("0xaaa", "Example")]);
    let mut enricher = PayloadEnricher::new();
    enricher.enrich(
        payload(json_text("w"), "Example"),
        &hyprland,
        &surroundings(true, false),
        RECEIVED,
    );
    let unrelated = object(vec![
        ("tab", object(vec![("title", json_text("Else"))])),
        ("chrome_window", object(vec![("id", json_text("w"))])),
    ]);
    let elsewhere = state_with_clients(
        None,
        vec![HyprClient {
            class_name: "kitty".to_owned(),
            ..client("0xaaa", "vim")
        }],
    );

    let enriched = enricher.enrich(unrelated, &elsewhere, &surroundings(true, false), RECEIVED);

    let bridge = enriched.get("bridge").unwrap();
    let mapped = bridge.get("mapped_window").unwrap();
    assert_eq!(mapped.get_str("window_id"), Some("0xaaa"));
    assert_eq!(bridge.get_i64("known_chrome_window_mappings"), Some(1));
}

#[test]
fn the_mapping_goes_with_its_window() {
    let hyprland = state_with_clients(Some("0xaaa"), vec![client("0xaaa", "Example")]);
    let mut enricher = PayloadEnricher::new();
    enricher.enrich(
        payload(json_integer(7), "Example"),
        &hyprland,
        &surroundings(true, false),
        RECEIVED,
    );

    let enriched = enricher.enrich(
        payload(json_integer(7), "Example"),
        &HyprlandState::default(),
        &surroundings(false, false),
        RECEIVED,
    );

    let bridge = enriched.get("bridge").unwrap();
    assert_eq!(shown(bridge.get("mapped_window").unwrap()), "Null");
    assert_eq!(bridge.get_i64("known_chrome_window_mappings"), Some(0));
    let wm = enriched.get("wm").unwrap();
    assert!(texts(wm.get("available_backends").unwrap()).is_empty());
    assert!(wm.get("hyprland_candidates").is_none());
}

#[test]
fn a_payload_that_is_no_object_becomes_one() {
    let mut enricher = PayloadEnricher::new();

    let enriched = enricher.enrich(
        json_text("text"),
        &HyprlandState::default(),
        &surroundings(false, false),
        RECEIVED,
    );

    assert_eq!(enriched.get_str("raw"), Some("text"));
    assert!(enriched.get("wm").is_some());
    assert!(enriched.get("bridge").is_some());
}

#[test]
fn fields_of_the_bridge_are_its_own() {
    let mut enricher = PayloadEnricher::new();
    let sent = object(vec![
        ("bridge", json_text("mine")),
        ("wm", json_text("mine")),
        ("other", json_integer(1)),
    ]);

    let enriched = enricher.enrich(
        sent,
        &HyprlandState::default(),
        &surroundings(false, false),
        RECEIVED,
    );

    assert_eq!(
        enriched.get("bridge").unwrap().get_str("schema"),
        Some(DEFAULT_SCHEMA)
    );
    assert_eq!(
        enriched.get("wm").unwrap().get_str("checked_at"),
        Some(CHECKED)
    );
    assert_eq!(enriched.get_i64("other"), Some(1));
}

#[test]
fn the_context_tells_what_is_known_of_hyprland() {
    let mut hyprland = state_with_clients(
        Some("0xaaa"),
        vec![client("0xaaa", "Example"), client("0xbbb", "Other")],
    );
    hyprland.event_stream_connected = true;
    hyprland.last_event = Some("workspace>>1".to_owned());
    hyprland.last_event_at = Some("then".to_owned());
    hyprland.last_checked_at = Some("later".to_owned());

    let wm = build_wm_context("example", &hyprland, &[], &surroundings(false, false));

    assert_eq!(
        wm.get("hyprland_event_stream_connected").unwrap().as_bool(),
        Some(true)
    );
    assert_eq!(wm.get_str("hyprland_last_event"), Some("workspace>>1"));
    assert_eq!(wm.get_str("hyprland_last_event_at"), Some("then"));
    assert_eq!(wm.get_str("hyprland_last_checked_at"), Some("later"));
    assert_eq!(
        wm.get("hyprland_active").unwrap().get_str("title"),
        Some("Example")
    );
    let matches = wm.get("hyprland_title_matches").unwrap().as_array().unwrap();
    assert_eq!(matches.len(), 1);
    assert_eq!(matches[0].get_str("address"), Some("0xaaa"));
    assert!(wm
        .get("hyprland_candidates")
        .unwrap()
        .as_array()
        .unwrap()
        .is_empty());
}

#[test]
fn an_active_window_that_is_not_known_is_given_by_its_address() {
    let hyprland = state_with_clients(Some("0xccc"), Vec::new());

    let wm = build_wm_context("", &hyprland, &[], &surroundings(true, false));

    assert_eq!(
        shown(wm.get("hyprland_active").unwrap()),
        shown(&object(vec![("address", json_text("0xccc"))]))
    );
    assert!(wm.get("hyprland_title_matches").is_none());
    assert!(wm.get("hyprland_last_event").is_none());
}

#[test]
fn no_more_than_five_windows_are_listed() {
    let mut clients = Vec::new();
    let mut candidates = Vec::new();
    for i in 0..7 {
        let address = format!("0x{i}");
        clients.push(client(&address, "Example"));
        candidates.push(CandidateScore {
            client: client(&address, "Example"),
            confidence: Confidence::hundredths(60),
            sources: Vec::new(),
        });
    }
    let hyprland = state_with_clients(None, clients);

    let wm = build_wm_context("Example", &hyprland, &candidates, &surroundings(true, false));

    let matches = wm.get("hyprland_title_matches").unwrap().as_array().unwrap();
    let listed = wm.get("hyprland_candidates").unwrap().as_array().unwrap();
    assert_eq!(matches.len(), 5);
    assert_eq!(listed.len(), 5);
    assert_eq!(matches[4].get_str("address"), Some("0x4"));
    assert_eq!(listed[4].get_str("address"), Some("0x4"));
}

#[test]
fn the_active_x_window_is_given_in_both_bases() {
    let mut found = surroundings(false, true);
    found.x11_active = Some(X11Active {
        id_decimal: "48234503".to_owned(),
        title: Some("Terminal".to_owned()),
    });

    let wm = build_wm_context("", &HyprlandState::default(), &[], &found);

    assert_eq!(texts(wm.get("available_backends").unwrap()), vec!["x11"]);
    let active = wm.get("x11_active").unwrap();
    assert_eq!(active.get_str("id_decimal"), Some("48234503"));
    assert_eq!(active.get_str("id_hex"), Some("0x2e00007"));
    assert_eq!(active.get_str("title"), Some("Terminal"));
}

#[test]
fn an_x_window_whose_id_is_no_number_has_no_other_base() {
    for id in ["window", "-1", "18446744073709551616", ""] {
        let mut found = surroundings(false, true);
        found.x11_active = Some(X11Active {
            id_decimal: id.to_owned(),
            title: None,
        });

        let wm = build_wm_context("", &HyprlandState::default(), &[], &found);

        let active = wm.get("x11_active").unwrap();
        assert_eq!(active.get_str("id_decimal"), Some(id));
        assert!(active.get("id_hex").is_none());
        assert!(active.get("title").is_none());
    }
}

#[test]
fn an_x_window_counts_only_beside_the_tool_that_found_it() {
    let mut found = surroundings(false, false);
    found.x11_active = Some(X11Active {
        id_decimal: "1".to_owned(),
        title: None,
    });

    let wm = build_wm_context("", &HyprlandState::default(), &[], &found);

    assert!(wm.get("x11_active").is_none());
}

#[test]
fn windows_and_candidates_become_objects() {
    let candidate = CandidateScore {
        client: client("0xaaa", "Example"),
        confidence: Confidence::hundredths(23),
        sources: vec!["chrome_class".to_owned(), "approximate_geometry".to_owned()],
    };
    let bounds = object(vec![
        ("x", json_integer(1)),
        ("y", json_integer(-2)),
        ("width", json_integer(3)),
        ("height", json_integer(4)),
    ]);

    assert_eq!(shown(&rect_json(&candidate.client.rect.unwrap())), shown(&bounds));
    let window = compact_hypr_client(&candidate.client);
    assert_eq!(
        shown(&window),
        shown(&object(vec![
            ("address", json_text("0xaaa")),
            ("class", json_text("google-chrome")),
            ("title", json_text("Example")),
            ("pid", json_integer(100)),
            ("focus_history_id", json_integer(0)),
            ("bounds", bounds),
        ]))
    );
    let listed = candidate_score_json(&candidate);
    assert_eq!(listed.get_i64("pid"), Some(100));
    assert_eq!(write_json(listed.get("confidence").unwrap()).as_deref(), Some("0.23"));
    assert_eq!(
        texts(listed.get("sources").unwrap()),
        vec!["chrome_class", "approximate_geometry"]
    );
}

#[test]
fn a_reported_window_needs_an_address() {
    assert!(hypr_client_from_value(&Json::Null).is_none());
    assert!(hypr_client_from_value(&object(vec![("address", json_integer(1))])).is_none());
    assert!(hypr_client_from_value(&object(vec![("address", json_text(" "))])).is_none());

    let bare = hypr_client_from_value(&object(vec![("address", json_text("f"))])).unwrap();
    assert_eq!(
        bare,
        HyprClient {
            address: "0xf".to_owned(),
            ..HyprClient::default()
        }
    );
}

#[test]
fn a_workspace_that_is_no_object_is_left_out() {
    let reported = object(vec![
        ("address", json_text("f")),
        ("workspace", json_array(vec![json_integer(1)])),
    ]);
    assert_eq!(hypr_client_from_value(&reported).unwrap().workspace_id, None);
}

#[test]
fn a_place_needs_all_its_numbers() {
    let whole = object(vec![
        ("left", json_integer(1)),
        ("top", json_integer(2)),
        ("width", json_integer(3)),
        ("height", json_integer(4)),
    ]);
    assert_eq!(
        rect_from_chrome_window(&whole),
        Some(Rect {
            x: 1,
            y: 2,
            width: 3,
            height: 4
        })
    );
    let real = object(vec![
        ("left", Json::Number(Number::Real("1.5".to_owned()))),
        ("top", json_integer(2)),
        ("width", json_integer(3)),
        ("height", json_integer(4)),
    ]);
    assert_eq!(rect_from_chrome_window(&real), None);
    let short = object(vec![
        ("at", json_array(vec![json_integer(1)])),
        ("size", json_array(vec![json_integer(3), json_integer(4)])),
    ]);
    assert_eq!(rect_from_hypr_client(&short), None);
    assert_eq!(rect_from_hypr_client(&whole), None);
}

#[test]
fn ids_are_texts_numbers_or_truths() {
    assert_eq!(value_to_string(&json_text("w")).as_deref(), Some("w"));
    assert_eq!(value_to_string(&json_integer(-12)).as_deref(), Some("-12"));
    assert_eq!(
        value_to_string(&json_integer(i64::MIN)).as_deref(),
        Some("-9223372036854775808")
    );
    assert_eq!(
        value_to_string(&Json::Number(Number::Unsigned(u64::MAX))).as_deref(),
        Some("18446744073709551615")
    );
    assert_eq!(
        value_to_string(&Json::Number(Number::Real("1.5".to_owned()))).as_deref(),
        Some("1.5")
    );
    assert_eq!(value_to_string(&Json::Bool(true)).as_deref(), Some("true"));
    assert_eq!(value_to_string(&Json::Bool(false)).as_deref(), Some("false"));
    assert_eq!(value_to_string(&Json::Null), None);
    assert_eq!(value_to_string(&json_array(Vec::new())), None);
    assert_eq!(value_to_string(&object(Vec::new())), None);
}

#[test]
fn integers_are_read_where_they_fit() {
    assert_eq!(Json::Number(Number::Unsigned(u64::MAX)).as_i64(), None);
    assert_eq!(
        Json::Number(Number::Unsigned(i64::MAX as u64)).as_i64(),
        Some(i64::MAX)
    );
    assert_eq!(json_integer(-1).as_i64(), Some(-1));
    assert_eq!(Json::Number(Number::Real("2.0".to_owned())).as_i64(), None);
    assert_eq!(json_text("1").as_i64(), None);
}

#[test]
fn a_field_is_replaced_where_it_stands() {
    let value = object(vec![("a", json_integer(1)), ("b", json_integer(2))]);

    let changed = value.with_field("a", json_integer(3)).with_field("c", Json::Null);

    assert_eq!(
        shown(&changed),
        shown(&object(vec![
            ("a", json_integer(3)),
            ("b", json_integer(2)),
            ("c", Json::Null)
        ]))
    );
    assert_eq!(shown(&json_text("t").with_field("a", Json::Null)), shown(&json_text("t")));
}

#[test]
fn an_optional_field_is_set_only_where_there_is_a_value() {
    let mut fields = vec![field("a", json_integer(1)), field("b", json_integer(2))];

    insert_optional_string(&mut fields, "a", Some("x"));
    insert_optional_string(&mut fields, "b", None);
    insert_optional_i64(&mut fields, "c", Some(-3));
    insert_optional_i64(&mut fields, "d", None);

    assert_eq!(
        shown(&json_object(fields)),
        shown(&object(vec![
            ("a", json_text("x")),
            ("b", json_integer(2)),
            ("c", json_integer(-3))
        ]))
    );
}

fn assert_keys_once(value: &Json) {
    match value {
        Json::Object(fields) => {
            for (i, (key, inner)) in fields.iter().enumerate() {
                assert!(fields[..i].iter().all(|(other, _)| other != key), "{key}");
                assert_keys_once(inner);
            }
        }
        Json::Array(items) => items.iter().for_each(assert_keys_once),
        _ => {}
    }
}

#[test]
fn no_published_key_stands_twice() {
    let mut hyprland = state_with_clients(Some("0xaaa"), vec![client("0xaaa", "Example")]);
    hyprland.last_event = Some("workspace>>1".to_owned());
    hyprland.last_event_at = Some("then".to_owned());
    hyprland.last_checked_at = Some("later".to_owned());
    let mut found = surroundings(true, true);
    found.x11_active = Some(X11Active {
        id_decimal: "1".to_owned(),
        title: Some("t".to_owned()),
    });

    let enriched = PayloadEnricher::new().enrich(
        payload(json_integer(7), "Example"),
        &hyprland,
        &found,
        RECEIVED,
    );

    assert_keys_once(&enriched);
}

#[test]
fn a_table_holds_one_value_for_each_key() {
    let mut table = TextMap::new();
    table.insert("a".to_owned(), json_integer(1));
    table.insert("b".to_owned(), json_integer(2));
    table.insert("a".to_owned(), json_integer(3));

    assert_eq!(table.len(), 2);
    assert_eq!(table.key_at(0), "a");
    assert_eq!(table.value_at(0).as_i64(), Some(3));
    assert_eq!(table.get("b").unwrap().as_i64(), Some(2));
    table.remove("a");
    assert!(!table.contains_key("a"));
    assert_eq!(table.key_at(0), "b");
    table.remove("a");
    assert_eq!(table.len(), 1);
}

#[test]
fn a_payload_of_a_known_window_is_kept_for_it() {
    let mut shared = SharedDbusState::new();
    assert_eq!(shared.get_last_payload(), "{}");
    assert_eq!(shared.get_schema(), "org.imalison.chrome_window_info.v1");
    let hyprland = state_with_clients(Some("0xaaa"), vec![client("0xaaa", "Example")]);
    let enriched = PayloadEnricher::new().enrich(
        payload(json_integer(7), "Example"),
        &hyprland,
        &surroundings(true, false),
        RECEIVED,
    );

    let text = write_json(&enriched).unwrap();

    let signals = shared.process_payload(enriched).unwrap();

    assert_eq!(
        signals,
        vec![
            Signal::WindowUpdated {
                window_id: "0xaaa".to_owned(),
                payload: text.clone()
            },
            Signal::Updated {
                payload: text.clone()
            }
        ]
    );
    assert_eq!(shared.get_last_payload(), text);
    assert_eq!(shared.get_window_payloads(), format!("{{\"0xaaa\":{text}}}"));
    assert_eq!(shared.window_payloads.len(), 1);
    assert!(shared.window_payloads.get("0xaaa").unwrap().get("bridge").is_some());
}

#[test]
fn a_payload_without_a_window_is_only_the_last_one() {
    let mut shared = SharedDbusState::new();

    let signals = shared
        .process_payload(object(vec![(
            "bridge",
            object(vec![("mapped_window", Json::Null)]),
        )]))
        .unwrap();

    let text = "{\"bridge\":{\"mapped_window\":null}}";
    assert_eq!(
        signals,
        vec![Signal::Updated {
            payload: text.to_owned()
        }]
    );
    assert_eq!(shared.get_last_payload(), text);
    assert!(shared.window_payloads.is_empty());
    assert_eq!(shared.get_window_payloads(), "{}");
}

#[test]
fn a_wrong_token_is_refused_before_the_payload_is_looked_at() {
    for provided in [None, Some(""), Some("Secret")] {
        for sent in [object(Vec::new()), Json::Null] {
            let reply = handle_update(Some("secret"), provided, sent).unwrap_err();
            assert_eq!(reply.status, 403);
            assert_eq!(reply.body.get_str("error"), Some("invalid token"));
        }
    }
}

#[test]
fn a_payload_must_be_an_object() {
    for sent in [Json::Null, json_array(Vec::new()), json_text("{}")] {
        let reply = handle_update(None, Some("any"), sent).unwrap_err();
        assert_eq!(reply.status, 400);
        assert_eq!(
            reply.body.get_str("error"),
            Some("payload must be a JSON object")
        );
    }
}

#[test]
fn a_good_request_goes_on() {
    let passed =
        handle_update(Some("secret"), Some("secret"), payload(json_integer(7), "t")).unwrap();
    assert_eq!(passed.get("tab").unwrap().get_str("title"), Some("t"));
    assert!(handle_update(Some(""), None, object(Vec::new())).is_ok());
    assert!(handle_update(None, None, object(Vec::new())).is_ok());
}

#[test]
fn the_answer_tells_whether_the_payload_was_taken() {
    let taken = delivery_reply(true);
    assert_eq!(taken.status, 202);
    assert_eq!(taken.body.get("ok").unwrap().as_bool(), Some(true));
    let lost = delivery_reply(false);
    assert_eq!(lost.status, 503);
    assert_eq!(lost.body.get_str("error"), Some("bridge unavailable"));
}

#[test]
fn paths_start_at_the_root() {
    assert_eq!(route_path("/update"), "/update");
    assert_eq!(route_path("update"), "/update");
    assert_eq!(route_path(""), "/");
    assert_eq!(route_path("//x"), "//x");
}

#[test]
fn a_payload_is_published_with_the_text_it_is_given() {
    let mut shared = SharedDbusState::new();
    let window = object(vec![(
        "bridge",
        object(vec![(
            "mapped_window",
            object(vec![("window_id", json_text("0xb"))]),
        )]),
    )]);

    let signals = shared.publish(window, "text".to_owned());

    assert_eq!(
        signals,
        vec![
            Signal::WindowUpdated {
                window_id: "0xb".to_owned(),
                payload: "text".to_owned()
            },
            Signal::Updated {
                payload: "text".to_owned()
            }
        ]
    );
    assert_eq!(shared.get_last_payload(), "text");
    assert!(shared.window_payloads.contains_key("0xb"));
}

#[test]
fn json_is_read_and_written() {
    let text = "{\"a\":[null,true,\"x\\n\"],\"b\":{\"c\":-1,\"d\":18446744073709551615}}";
    let value = parse_json(text).unwrap();
    assert_eq!(
        shown(&value),
        shown(&object(vec![
            (
                "a",
                json_array(vec![Json::Null, Json::Bool(true), json_text("x\n")])
            ),
            (
                "b",
                object(vec![
                    ("c", json_integer(-1)),
                    ("d", Json::Number(Number::Unsigned(u64::MAX)))
                ])
            ),
        ]))
    );
    assert_eq!(write_json(&value).as_deref(), Some(text));
    assert!(parse_json("{").is_none());
    assert!(parse_json("").is_none());
}

#[test]
fn numbers_that_are_no_integers_are_kept() {
    for text in ["0.5", "1.0", "-2.25", "0.30000000000000004", "1e300"] {
        let value = parse_json(text).unwrap();
        assert!(matches!(value, Json::Number(Number::Real(_))));
        let again = parse_json(&write_json(&value).unwrap()).unwrap();
        assert_eq!(write_json(&again), write_json(&value));
        let Json::Number(Number::Real(held)) = value else {
            panic!("not a real number");
        };
        assert_eq!(write_json(&Json::Number(Number::Real(held.clone()))), Some(held));
    }
    let broken = Json::Number(Number::Real("no number".to_owned()));
    assert_eq!(write_json(&broken).as_deref(), Some("null"));
}

#[test]
fn a_mapping_is_published_as_surely_as_it_is() {
    let mut titled = client("0xaaa", "Example");
    titled.rect = None;
    let hyprland = state_with_clients(None, vec![titled]);

    let enriched = PayloadEnricher::new().enrich(
        payload(json_integer(7), "Example"),
        &hyprland,
        &surroundings(true, false),
        RECEIVED,
    );

    let mapped = enriched.get("bridge").unwrap().get("mapped_window").unwrap();
    assert_eq!(
        write_json(mapped).as_deref(),
        Some(
            "{\"backend\":\"hyprland\",\"confidence\":0.6000000000000001,\
             \"sources\":[\"chrome_class\",\"exact_or_contained_title\"],\
             \"window_id\":\"0xaaa\"}"
        )
    );
}

#[test]
fn where_a_key_stands_twice_the_first_field_is_written() {
    let value = object(vec![
        ("b", json_integer(1)),
        ("a", json_integer(2)),
        ("b", json_integer(3)),
    ]);
    assert_eq!(value.get_i64("b"), Some(1));
    assert_eq!(write_json(&value).as_deref(), Some("{\"a\":2,\"b\":1}"));
}

#[test]
fn no_key_is_read_twice() {
    let value = parse_json("{\"a\":1,\"a\":2,\"b\":[{\"c\":1,\"c\":2}]}").unwrap();
    assert_keys_once(&value);
}
