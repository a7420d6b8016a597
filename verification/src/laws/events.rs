//! What holds of events and answers: how what is known of Hyprland is kept.

use vstd::prelude::*;

use crate::client::{client_of, law_normalized_is_stable, normalized, ClientView};
use crate::json::JsonView;
use crate::state::{
    clients_of, event_parts, opened_client, reported_client, reported_clients, with_opened,
    AnswersView, StateView,
};
use crate::table::{
    distinct_keys, first_position, has_key, lemma_filter_all, lemma_first_entry,
    lemma_lookup_has_key, lemma_no_entry, lemma_read_after_write, lemma_without_key,
    lemma_write_keeps_keys_distinct, lookup, other_than, with_entry, without_key,
};
use crate::text::{lemma_split_behind, parsed_i64, split_first, split_limited};
use crate::watch::WatchEvent;

verus! {

/// Every window stands under its own address, no address stands twice, and every address is in
/// its one form.
pub open spec fn well_kept(state: StateView) -> bool {
    &&& distinct_keys(state.clients)
    &&& forall|i: int|
        0 <= i < state.clients.len() ==> well_kept_entry(#[trigger] state.clients[i])
    &&& state.active_address matches Some(address) ==> normalized(address) == address
}

/// Every window stands under its own address.
pub open spec fn under_own_addresses(clients: Seq<(Seq<char>, ClientView)>) -> bool {
    forall|i: int| 0 <= i < clients.len() ==> (#[trigger] clients[i]).0 == clients[i].1.address
}

/// Where everything is well kept, every window stands under its own address.
pub proof fn law_well_kept_addresses(state: StateView)
    requires
        well_kept(state),
    ensures
        under_own_addresses(state.clients),
{
    assert forall|i: int| 0 <= i < state.clients.len() implies (#[trigger] state.clients[i]).0
        == state.clients[i].1.address by {
        assert(well_kept_entry(state.clients[i]));
    }
}

/// A window that stands under its own address, in its one form.
pub open spec fn well_kept_entry(entry: (Seq<char>, ClientView)) -> bool {
    entry.0 == entry.1.address && normalized(entry.0) == entry.0
}

proof fn lemma_write_keeps_entries(
    clients: Seq<(Seq<char>, ClientView)>,
    address: Seq<char>,
    client: ClientView,
)
    requires
        distinct_keys(clients),
        forall|i: int| 0 <= i < clients.len() ==> well_kept_entry(#[trigger] clients[i]),
        well_kept_entry((address, client)),
    ensures
        distinct_keys(with_entry(clients, address, client)),
        forall|i: int|
            0 <= i < with_entry(clients, address, client).len() ==> well_kept_entry(
                #[trigger] with_entry(clients, address, client)[i],
            ),
{
    lemma_write_keeps_keys_distinct(clients, address, client);
    let at = first_position(clients, address);
    if at < clients.len() {
        lemma_first_entry(clients, address, client, at);
    } else {
        lemma_no_entry(clients, address, client);
    }
}

/// What an event says leaves every window under its own address in its one form.
pub proof fn law_events_keep_addresses(state: StateView, line: Seq<char>, now: Seq<char>)
    requires
        well_kept(state),
    ensures
        well_kept(state.after_event(line, now)),
{
    let (name, payload) = event_parts(line);
    law_normalized_is_stable(payload);
    if name == "activewindowv2"@ {
    } else if name == "windowtitlev2"@ {
        if let Some((raw, title)) = split_first(payload, ","@) {
            let address = normalized(raw);
            if let Some(client) = lookup(state.clients, address) {
                let at = first_position(state.clients, address);
                lemma_lookup_has_key(state.clients, address);
                lemma_first_entry(state.clients, address, client, at);
                assert(well_kept_entry(state.clients[at]));
                lemma_write_keeps_entries(
                    state.clients,
                    address,
                    ClientView { title, ..client },
                );
            }
        }
    } else if name == "openwindow"@ {
        let values = split_limited(payload, ","@, 4);
        if values.len() == 4 {
            law_normalized_is_stable(values[0]);
            let client = opened_client(
                normalized(values[0]),
                parsed_i64(values[1]),
                values[2],
                values[3],
            );
            lemma_write_keeps_entries(state.clients, client.address, client);
        }
    } else if name == "closewindow"@ {
        let address = normalized(payload);
        lemma_without_key(state.clients, address, address);
        let left = without_key(state.clients, address);
        assert forall|i: int| 0 <= i < left.len() implies well_kept_entry(#[trigger] left[i]) by {
            assert(state.clients.contains(left[i]));
            let origin = state.clients.index_of(left[i]);
            assert(well_kept_entry(state.clients[origin]));
        }
    }
}

/// Nothing is out of place where no window is known.
pub proof fn law_start_is_well_kept(state: StateView)
    requires
        state.clients.len() == 0,
        state.active_address is None,
    ensures
        well_kept(state),
{
}

/// Whatever happens while the event socket is followed leaves every window under its own address
/// in its one form.
pub proof fn law_watching_keeps_addresses(state: StateView, event: WatchEvent)
    requires
        well_kept(state),
    ensures
        well_kept(state.watched(event)),
{
    if let WatchEvent::Line { text, now } = event {
        law_events_keep_addresses(state, text@, now@);
    }
}

proof fn lemma_listed_clients(items: Seq<JsonView>)
    ensures
        distinct_keys(clients_of(items)),
        forall|i: int|
            0 <= i < clients_of(items).len() ==> well_kept_entry(#[trigger] clients_of(items)[i]),
    decreases items.len(),
{
    if items.len() > 0 {
        lemma_listed_clients(items.drop_last());
        if let Some(client) = client_of(items.last()) {
            law_normalized_is_stable(items.last().text_field("address"@)->0);
            lemma_write_keeps_entries(clients_of(items.drop_last()), client.address, client);
        }
    }
}

/// What Hyprland answers leaves every window under its own address in its one form, and then the
/// active window, if there is one, is one of the known windows. Without Hyprland's tool nothing
/// changes.
pub proof fn law_refresh_keeps_addresses(state: StateView, answers: Option<AnswersView>)
    requires
        well_kept(state),
    ensures
        well_kept(state.asked(answers)),
        answers is None ==> state.asked(answers) == state,
        answers is Some ==> (state.asked(answers).active_address matches Some(address) ==> has_key(
            state.asked(answers).clients,
            address,
        )),
{
    if let Some(given) = answers {
        if let Some(value) = given.clients {
            if let Some(items) = value.items() {
                lemma_listed_clients(items);
            }
        }
        let known = match reported_clients(given.clients) {
            Some(listed) => listed,
            None => state.clients,
        };
        if let Some(client) = reported_client(given.active) {
            law_normalized_is_stable(given.active->0.text_field("address"@)->0);
            lemma_write_keeps_entries(known, client.address, client);
            lemma_read_after_write(known, client.address, client, client.address);
            lemma_lookup_has_key(with_entry(known, client.address, client), client.address);
        }
    }
}

/// Every event is noted with its time, and none changes whether the event stream is connected or
/// when Hyprland was last asked. An event of another name changes nothing else.
pub proof fn law_events_are_noted(state: StateView, line: Seq<char>, now: Seq<char>)
    ensures
        state.after_event(line, now).last_event == Some(line),
        state.after_event(line, now).last_event_at == Some(now),
        state.after_event(line, now).event_stream_connected == state.event_stream_connected,
        state.after_event(line, now).last_checked_at == state.last_checked_at,
        ({
            let name = event_parts(line).0;
            name != "activewindowv2"@ && name != "windowtitlev2"@ && name != "openwindow"@ && name
                != "closewindow"@
        }) ==> state.after_event(line, now).clients == state.clients && state.after_event(
            line,
            now,
        ).active_address == state.active_address,
{
}

proof fn lemma_event_line(name: Seq<char>, payload: Seq<char>)
    requires
        forall|i: int| 0 <= i < name.len() ==> #[trigger] name[i] != '>',
    ensures
        event_parts(name + ">>"@ + payload) == (name, payload),
{
    reveal_strlit(">>");
    lemma_split_behind(name, ">>"@, payload);
}

proof fn lemma_event_names()
    ensures
        "openwindow"@ != "activewindowv2"@,
        "openwindow"@ != "windowtitlev2"@,
        "closewindow"@ != "activewindowv2"@,
        "closewindow"@ != "windowtitlev2"@,
        "closewindow"@ != "openwindow"@,
        forall|i: int| 0 <= i < "openwindow"@.len() ==> #[trigger] "openwindow"@[i] != '>',
        forall|i: int| 0 <= i < "closewindow"@.len() ==> #[trigger] "closewindow"@[i] != '>',
{
    reveal_strlit("openwindow");
    reveal_strlit("closewindow");
    reveal_strlit("activewindowv2");
    reveal_strlit("windowtitlev2");
    assert("openwindow"@.len() == 10 && "closewindow"@.len() == 11);
    assert("activewindowv2"@.len() == 14 && "windowtitlev2"@.len() == 13);
}

/// The event of the active window makes the window that it names the active one, in the one form
/// of its address, and none where it names none. It changes no window.
pub proof fn law_active_event(state: StateView, payload: Seq<char>, now: Seq<char>)
    ensures
        ({
            let after = state.after_event("activewindowv2"@ + ">>"@ + payload, now);
            &&& payload.len() == 0 ==> after.active_address is None
            &&& payload.len() > 0 ==> after.active_address == Some(normalized(payload))
            &&& after.clients == state.clients
        }),
{
    reveal_strlit("activewindowv2");
    lemma_event_line("activewindowv2"@, payload);
}

/// The event of a closed window leaves the window neither among the known ones nor active, and
/// leaves every other window as it was.
pub proof fn law_close_event(
    state: StateView,
    payload: Seq<char>,
    now: Seq<char>,
    other: Seq<char>,
)
    requires
        distinct_keys(state.clients),
    ensures
        ({
            let after = state.after_event("closewindow"@ + ">>"@ + payload, now);
            let address = normalized(payload);
            &&& !has_key(after.clients, address)
            &&& after.active_address != Some(address)
            &&& other != address ==> lookup(after.clients, other) == lookup(state.clients, other)
            &&& state.active_address != Some(address) ==> after.active_address
                == state.active_address
        }),
{
    lemma_event_names();
    lemma_event_line("closewindow"@, payload);
    let address = normalized(payload);
    lemma_without_key(state.clients, address, other);
}

/// The event of a new title changes the title of the window that it names, if that is known, and
/// nothing else of any window.
pub proof fn law_title_event(
    state: StateView,
    raw: Seq<char>,
    title: Seq<char>,
    now: Seq<char>,
    other: Seq<char>,
)
    requires
        forall|i: int| 0 <= i < raw.len() ==> #[trigger] raw[i] != ',',
    ensures
        ({
            let after = state.after_event(
                "windowtitlev2"@ + ">>"@ + (raw + ","@ + title),
                now,
            );
            let address = normalized(raw);
            &&& lookup(after.clients, address) == match lookup(state.clients, address) {
                Some(client) => Some(ClientView { title, ..client }),
                None => None,
            }
            &&& other != address ==> lookup(after.clients, other) == lookup(state.clients, other)
            &&& after.active_address == state.active_address
        }),
{
    reveal_strlit("windowtitlev2");
    reveal_strlit("activewindowv2");
    reveal_strlit(",");
    lemma_event_line("windowtitlev2"@, raw + ","@ + title);
    lemma_split_behind(raw, ","@, title);
    let address = normalized(raw);
    if let Some(client) = lookup(state.clients, address) {
        lemma_read_after_write(
            state.clients,
            address,
            ClientView { title, ..client },
            other,
        );
    }
}

/// The payload of the event of an opened window: its address, its workspace, its class and its
/// title.
pub open spec fn open_payload(
    raw: Seq<char>,
    workspace: Seq<char>,
    class_name: Seq<char>,
    title: Seq<char>,
) -> Seq<char> {
    raw + ","@ + (workspace + ","@ + (class_name + ","@ + title))
}

proof fn lemma_open_payload(
    raw: Seq<char>,
    workspace: Seq<char>,
    class_name: Seq<char>,
    title: Seq<char>,
)
    requires
        forall|i: int| 0 <= i < raw.len() ==> #[trigger] raw[i] != ',',
        forall|i: int| 0 <= i < workspace.len() ==> #[trigger] workspace[i] != ',',
        forall|i: int| 0 <= i < class_name.len() ==> #[trigger] class_name[i] != ',',
    ensures
        split_limited(open_payload(raw, workspace, class_name, title), ","@, 4) == seq![
            raw,
            workspace,
            class_name,
            title,
        ],
{
    reveal_strlit(",");
    let last = class_name + ","@ + title;
    let rest = workspace + ","@ + last;
    lemma_split_behind(class_name, ","@, title);
    lemma_split_behind(workspace, ","@, last);
    lemma_split_behind(raw, ","@, rest);
    assert(split_limited(title, ","@, 1) =~= seq![title]);
    assert(split_limited(last, ","@, 2) =~= seq![class_name, title]);
    assert(split_limited(rest, ","@, 3) =~= seq![workspace, class_name, title]);
    assert(split_limited(raw + ","@ + rest, ","@, 4) =~= seq![raw, workspace, class_name, title]);
}

/// The event of an opened window makes the window known by what the event says of it, unless it is
/// known already: then nothing of it changes. No other window changes.
pub proof fn law_open_event(
    state: StateView,
    raw: Seq<char>,
    workspace: Seq<char>,
    class_name: Seq<char>,
    title: Seq<char>,
    now: Seq<char>,
    other: Seq<char>,
)
    requires
        forall|i: int| 0 <= i < raw.len() ==> #[trigger] raw[i] != ',',
        forall|i: int| 0 <= i < workspace.len() ==> #[trigger] workspace[i] != ',',
        forall|i: int| 0 <= i < class_name.len() ==> #[trigger] class_name[i] != ',',
    ensures
        ({
            let after = state.after_event(
                "openwindow"@ + ">>"@ + open_payload(raw, workspace, class_name, title),
                now,
            );
            let address = normalized(raw);
            &&& lookup(after.clients, address) == match lookup(state.clients, address) {
                Some(client) => Some(client),
                None => Some(
                    ClientView {
                        address,
                        class_name,
                        title,
                        pid: None,
                        workspace_id: parsed_i64(workspace),
                        focus_history_id: None,
                        rect: None,
                    },
                ),
            }
            &&& other != address ==> lookup(after.clients, other) == lookup(state.clients, other)
            &&& after.active_address == state.active_address
        }),
{
    lemma_event_names();
    lemma_event_line("openwindow"@, open_payload(raw, workspace, class_name, title));
    lemma_open_payload(raw, workspace, class_name, title);
    let address = normalized(raw);
    lemma_lookup_has_key(state.clients, address);
    lemma_read_after_write(
        state.clients,
        address,
        opened_client(address, parsed_i64(workspace), class_name, title),
        other,
    );
}

proof fn lemma_opened(
    state: StateView,
    raw: Seq<char>,
    workspace: Seq<char>,
    class_name: Seq<char>,
    title: Seq<char>,
    now: Seq<char>,
)
    requires
        forall|i: int| 0 <= i < raw.len() ==> #[trigger] raw[i] != ',',
        forall|i: int| 0 <= i < workspace.len() ==> #[trigger] workspace[i] != ',',
        forall|i: int| 0 <= i < class_name.len() ==> #[trigger] class_name[i] != ',',
    ensures
        state.after_event(
            "openwindow"@ + ">>"@ + open_payload(raw, workspace, class_name, title),
            now,
        ).clients == with_opened(
            state.clients,
            opened_client(normalized(raw), parsed_i64(workspace), class_name, title),
        ),
        state.after_event(
            "openwindow"@ + ">>"@ + open_payload(raw, workspace, class_name, title),
            now,
        ).active_address == state.active_address,
{
    lemma_event_names();
    lemma_event_line("openwindow"@, open_payload(raw, workspace, class_name, title));
    lemma_open_payload(raw, workspace, class_name, title);
}

proof fn lemma_closed(state: StateView, raw: Seq<char>, now: Seq<char>)
    ensures
        state.after_event("closewindow"@ + ">>"@ + raw, now).clients == without_key(
            state.clients,
            normalized(raw),
        ),
        state.active_address != Some(normalized(raw)) ==> state.after_event(
            "closewindow"@ + ">>"@ + raw,
            now,
        ).active_address == state.active_address,
{
    lemma_event_names();
    lemma_event_line("closewindow"@, raw);
}

proof fn lemma_remove_last(
    clients: Seq<(Seq<char>, ClientView)>,
    address: Seq<char>,
    client: ClientView,
)
    requires
        !has_key(clients, address),
    ensures
        without_key(with_entry(clients, address, client), address) == clients,
{
    reveal(Seq::filter);
    lemma_no_entry(clients, address, client);
    lemma_filter_all(clients, other_than::<ClientView>(address));
    assert(clients.push((address, client)).drop_last() =~= clients);
}

/// An event of an opened window that has less than four parts, and an event of a new title without
/// a comma, change no window and not which one is active.
pub proof fn law_short_events(state: StateView, payload: Seq<char>, now: Seq<char>)
    ensures
        split_limited(payload, ","@, 4).len() < 4 ==> {
            let after = state.after_event("openwindow"@ + ">>"@ + payload, now);
            after.clients == state.clients && after.active_address == state.active_address
        },
        split_first(payload, ","@) is None ==> {
            let after = state.after_event("windowtitlev2"@ + ">>"@ + payload, now);
            after.clients == state.clients && after.active_address == state.active_address
        },
{
    lemma_event_names();
    lemma_event_line("openwindow"@, payload);
    assert(forall|i: int| 0 <= i < "windowtitlev2"@.len() ==> #[trigger] "windowtitlev2"@[i] != '>'
        && "windowtitlev2"@ != "activewindowv2"@) by {
        reveal_strlit("windowtitlev2");
        reveal_strlit("activewindowv2");
        assert("activewindowv2"@.len() == 14 && "windowtitlev2"@.len() == 13);
    }
    lemma_event_line("windowtitlev2"@, payload);
    reveal_strlit("windowtitlev2");
    reveal_strlit("activewindowv2");
    assert("activewindowv2"@.len() == 14 && "windowtitlev2"@.len() == 13);
}

/// Closing a window undoes that it was opened: a window that was not known before is not known
/// after, the others are as they were, and so is the active window, unless the closed one was it.
pub proof fn law_close_undoes_open(
    state: StateView,
    raw: Seq<char>,
    workspace: Seq<char>,
    class_name: Seq<char>,
    title: Seq<char>,
    now: Seq<char>,
    later: Seq<char>,
)
    requires
        forall|i: int| 0 <= i < raw.len() ==> #[trigger] raw[i] != ',',
        forall|i: int| 0 <= i < workspace.len() ==> #[trigger] workspace[i] != ',',
        forall|i: int| 0 <= i < class_name.len() ==> #[trigger] class_name[i] != ',',
        !has_key(state.clients, normalized(raw)),
    ensures
        state.after_event(
            "openwindow"@ + ">>"@ + open_payload(raw, workspace, class_name, title),
            now,
        ).after_event("closewindow"@ + ">>"@ + raw, later).clients == state.clients,
        state.active_address != Some(normalized(raw)) ==> state.after_event(
            "openwindow"@ + ">>"@ + open_payload(raw, workspace, class_name, title),
            now,
        ).after_event("closewindow"@ + ">>"@ + raw, later).active_address == state.active_address,
{
    let opened = state.after_event(
        "openwindow"@ + ">>"@ + open_payload(raw, workspace, class_name, title),
        now,
    );
    lemma_opened(state, raw, workspace, class_name, title, now);
    lemma_closed(opened, raw, later);
    lemma_remove_last(
        state.clients,
        normalized(raw),
        opened_client(normalized(raw), parsed_i64(workspace), class_name, title),
    );
}

} // verus!
