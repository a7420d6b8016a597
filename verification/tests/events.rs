use chrome_window_dbus_bridge::client::HyprClient;
use chrome_window_dbus_bridge::geometry::Rect;
use chrome_window_dbus_bridge::json::{json_array, json_integer, json_object, json_text, Json};
use chrome_window_dbus_bridge::state::{
    apply_hyprland_event, refresh_hyprland_state, HyprctlAnswers, HyprlandState,
};
use chrome_window_dbus_bridge::table::TextMap;
use chrome_window_dbus_bridge::watch::{watch_step, WatchAction, WatchEvent};

const NOW: &str = "2024-05-06T07:08:09Z";

fn client(address: &str, title: &str, rect: Rect) -> HyprClient {
    HyprClient {
        address: address.to_owned(),
        class_name: "google-chrome".to_owned(),
        title: title.to_owned(),
        pid: Some(100),
        workspace_id: Some(1),
        focus_history_id: Some(0),
        rect: Some(rect),
    }
}

fn state_with_clients(active_address: Option<&str>, clients: Vec<HyprClient>) -> HyprlandState {
    let mut table = TextMap::new();
    for client in clients {
        table.insert(client.address.clone(), client);
    }
    HyprlandState {
        active_address: active_address.map(ToOwned::to_owned),
        clients: table,
        ..HyprlandState::default()
    }
}

fn place() -> Rect {
    Rect {
        x: 0,
        y: 0,
        width: 800,
        height: 600,
    }
}

fn apply(state: &mut HyprlandState, line: &str) {
    apply_hyprland_event(state, line, NOW.to_owned());
}

fn refresh(state: &mut HyprlandState, active: Option<Json>, clients: Option<Json>) {
    let answers = HyprctlAnswers {
        active,
        clients,
        checked_at: NOW.to_owned(),
    };
    refresh_hyprland_state(state, Some(answers));
}

fn field(key: &str, value: Json) -> (String, Json) {
    (key.to_owned(), value)
}

#[test]
fn hyprland_close_event_removes_client_and_active_address() {
    let mut state = state_with_clients(Some("0xaaa"), vec![client("0xaaa", "Example", place())]);

    apply(&mut state, "closewindow>>0xaaa");

    assert!(state.clients.is_empty());
    assert_eq!(state.active_address, None);
    assert_eq!(state.last_event.as_deref(), Some("closewindow>>0xaaa"));
}

#[test]
fn empty_activewindowv2_clears_active_address() {
    let mut state = state_with_clients(Some("0xaaa"), vec![client("0xaaa", "Example", place())]);

    apply(&mut state, "activewindowv2>>");

    assert_eq!(state.active_address, None);
}

#[test]
fn hyprland_socket_addresses_are_normalized() {
    let mut state = HyprlandState::default();

    apply(&mut state, "openwindow>>abc,1,google-chrome,Example");
    apply(&mut state, "activewindowv2>>abc");
    apply(&mut state, "windowtitlev2>>abc,Updated title");

    assert_eq!(state.active_address.as_deref(), Some("0xabc"));
    assert_eq!(
        state
            .clients
            .get("0xabc")
            .map(|client| client.title.as_str()),
        Some("Updated title")
    );
}

#[test]
fn an_opened_window_is_known_by_what_the_event_says() {
    let mut state = HyprlandState::default();

    apply(&mut state, "openwindow>>abc,3,brave-browser,One, two, three");

    let opened = state.clients.get("0xabc").unwrap();
    assert_eq!(opened.address, "0xabc");
    assert_eq!(opened.workspace_id, Some(3));
    assert_eq!(opened.class_name, "brave-browser");
    assert_eq!(opened.title, "One, two, three");
    assert_eq!(opened.pid, None);
    assert_eq!(opened.focus_history_id, None);
    assert_eq!(opened.rect, None);
    assert_eq!(state.last_event_at.as_deref(), Some(NOW));
}

#[test]
fn a_workspace_that_is_no_number_is_left_out() {
    let mut state = HyprlandState::default();

    apply(&mut state, "openwindow>>abc,special:x,kitty,t");
    apply(&mut state, "openwindow>>abd,-97,kitty,t");
    apply(&mut state, "openwindow>>abe,+5,kitty,t");
    apply(&mut state, "openwindow>>abf,9223372036854775808,kitty,t");
    apply(&mut state, "openwindow>>ac0,,kitty,t");

    assert_eq!(state.clients.get("0xabc").unwrap().workspace_id, None);
    assert_eq!(state.clients.get("0xabd").unwrap().workspace_id, Some(-97));
    assert_eq!(state.clients.get("0xabe").unwrap().workspace_id, Some(5));
    assert_eq!(state.clients.get("0xabf").unwrap().workspace_id, None);
    assert_eq!(state.clients.get("0xac0").unwrap().workspace_id, None);
}

#[test]
fn opening_a_known_window_changes_nothing_of_it() {
    let mut state = state_with_clients(None, vec![client("0xaaa", "Example", place())]);

    apply(&mut state, "openwindow>>aaa,9,kitty,Other");

    assert_eq!(state.clients.len(), 1);
    assert_eq!(state.clients.get("0xaaa").unwrap().title, "Example");
    assert_eq!(state.clients.get("0xaaa").unwrap().workspace_id, Some(1));
}

#[test]
fn an_open_event_with_too_few_parts_opens_nothing() {
    let mut state = HyprlandState::default();

    apply(&mut state, "openwindow>>abc,1,kitty");

    assert!(state.clients.is_empty());
    assert_eq!(state.last_event.as_deref(), Some("openwindow>>abc,1,kitty"));
}

#[test]
fn closing_undoes_opening() {
    let mut state = state_with_clients(Some("0xaaa"), vec![client("0xaaa", "Example", place())]);

    apply(&mut state, "openwindow>>abc,1,kitty,t");
    assert_eq!(state.clients.len(), 2);
    apply(&mut state, "closewindow>>abc");

    assert_eq!(state.clients.len(), 1);
    assert!(state.clients.contains_key("0xaaa"));
    assert_eq!(state.active_address.as_deref(), Some("0xaaa"));
}

#[test]
fn a_title_of_an_unknown_window_is_dropped() {
    let mut state = state_with_clients(None, vec![client("0xaaa", "Example", place())]);

    apply(&mut state, "windowtitlev2>>bbb,Other");
    apply(&mut state, "windowtitlev2>>aaa");

    assert_eq!(state.clients.len(), 1);
    assert_eq!(state.clients.get("0xaaa").unwrap().title, "Example");
}

#[test]
fn other_events_are_only_noted() {
    let mut state = state_with_clients(Some("0xaaa"), vec![client("0xaaa", "Example", place())]);
    state.event_stream_connected = true;

    apply(&mut state, "workspace>>2");
    apply(&mut state, "no separator");

    assert_eq!(state.last_event.as_deref(), Some("no separator"));
    assert_eq!(state.active_address.as_deref(), Some("0xaaa"));
    assert_eq!(state.clients.len(), 1);
    assert!(state.event_stream_connected);
    assert_eq!(state.last_checked_at, None);
}

#[test]
fn the_payload_starts_behind_the_first_separator() {
    let mut state = HyprlandState::default();

    apply(&mut state, "activewindowv2>>a>>b");

    assert_eq!(state.active_address.as_deref(), Some("0xa>>b"));
}

fn report(address: &str, title: &str) -> Json {
    json_object(vec![
        field("address", json_text(address)),
        field("class", json_text("google-chrome")),
        field("title", json_text(title)),
        field("pid", json_integer(42)),
        field(
            "workspace",
            json_object(vec![field("id", json_integer(-99))]),
        ),
        field("focusHistoryID", json_integer(3)),
        field("at", json_array(vec![json_integer(-5), json_integer(6)])),
        field("size", json_array(vec![json_integer(7), json_integer(8)])),
    ])
}

#[test]
fn a_refresh_takes_the_reported_windows() {
    let mut state = state_with_clients(Some("0xold"), vec![client("0xold", "Old", place())]);
    let list = json_array(vec![
        report("aaa", "first"),
        Json::Null,
        json_object(vec![field("address", json_text("  "))]),
        report("0xbbb", "second"),
        report("0xaaa", "third"),
    ]);

    refresh(&mut state, None, Some(list));

    assert_eq!(state.clients.len(), 2);
    let first = state.clients.get("0xaaa").unwrap();
    assert_eq!(first.title, "third");
    assert_eq!(first.pid, Some(42));
    assert_eq!(first.workspace_id, Some(-99));
    assert_eq!(first.focus_history_id, Some(3));
    assert_eq!(
        first.rect,
        Some(Rect {
            x: -5,
            y: 6,
            width: 7,
            height: 8
        })
    );
    assert_eq!(state.active_address, None);
    assert_eq!(state.last_checked_at.as_deref(), Some(NOW));
}

#[test]
fn a_refresh_takes_the_active_window_even_if_it_is_not_listed() {
    let mut state = HyprlandState::default();
    let active = report("ccc", "active");
    let list = json_array(vec![report("aaa", "first")]);

    refresh(&mut state, Some(active), Some(list));

    assert_eq!(state.active_address.as_deref(), Some("0xccc"));
    assert_eq!(state.clients.len(), 2);
    assert_eq!(state.clients.get("0xccc").unwrap().title, "active");
}

#[test]
fn a_refresh_without_answers_keeps_what_is_known() {
    let mut state = state_with_clients(Some("0xaaa"), vec![client("0xaaa", "Example", place())]);

    refresh(&mut state, None, None);
    assert_eq!(state.active_address.as_deref(), Some("0xaaa"));
    assert_eq!(state.clients.len(), 1);

    refresh(&mut state, None, Some(Json::Null));
    assert_eq!(state.clients.len(), 1);
}

#[test]
fn without_the_tool_nothing_changes() {
    let mut state = state_with_clients(Some("0xgone"), vec![client("0xaaa", "Example", place())]);
    state.last_checked_at = Some("before".to_owned());

    refresh_hyprland_state(&mut state, None);

    assert_eq!(state.active_address.as_deref(), Some("0xgone"));
    assert_eq!(state.last_checked_at.as_deref(), Some("before"));
    assert_eq!(state.clients.len(), 1);
}

#[test]
fn the_socket_is_followed_step_by_step() {
    let mut state = HyprlandState::default();

    assert_eq!(
        watch_step(&mut state, WatchEvent::SocketMissing),
        WatchAction::Rest { seconds: 2 }
    );
    assert_eq!(
        watch_step(&mut state, WatchEvent::Rested),
        WatchAction::LocateSocket
    );
    assert_eq!(
        watch_step(&mut state, WatchEvent::SocketFound),
        WatchAction::Connect
    );
    assert_eq!(
        watch_step(&mut state, WatchEvent::ConnectFailed),
        WatchAction::Rest { seconds: 1 }
    );
    assert!(!state.event_stream_connected);
    assert_eq!(
        watch_step(&mut state, WatchEvent::Connected),
        WatchAction::ReadLine
    );
    assert!(state.event_stream_connected);
    let line = WatchEvent::Line {
        text: "activewindowv2>>abc".to_owned(),
        now: NOW.to_owned(),
    };
    assert_eq!(watch_step(&mut state, line), WatchAction::ReadLine);
    assert!(state.event_stream_connected);
    assert_eq!(state.active_address.as_deref(), Some("0xabc"));
    assert_eq!(
        watch_step(&mut state, WatchEvent::StreamEnded),
        WatchAction::Rest { seconds: 1 }
    );
    assert!(!state.event_stream_connected);
}
