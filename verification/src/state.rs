//! What is known of Hyprland: its windows, which of them is active, and how that is kept up with
//! the events that it sends.

use vstd::prelude::*;

use crate::client::{
    client_of, hypr_client_from_value, normalize_hypr_address, normalized, ClientView, HyprClient,
};
use crate::json::{item_views, viewed, Json, JsonView};
use crate::table::{has_key, lookup, with_entry, without_key, TextMap};
use crate::text::{
    parse_i64, parsed_i64, same_text, slices, split_first, split_limited, split_once, split_parts,
};

verus! {

/// What is known of Hyprland. The windows are kept by their addresses.
#[derive(Debug)]
pub struct HyprlandState {
    pub active_address: Option<String>,
    pub clients: TextMap<HyprClient>,
    pub event_stream_connected: bool,
    pub last_event: Option<String>,
    pub last_event_at: Option<String>,
    pub last_checked_at: Option<String>,
}

/// What a [`HyprlandState`] stands for.
pub ghost struct StateView {
    pub active_address: Option<Seq<char>>,
    pub clients: Seq<(Seq<char>, ClientView)>,
    pub event_stream_connected: bool,
    pub last_event: Option<Seq<char>>,
    pub last_event_at: Option<Seq<char>>,
    pub last_checked_at: Option<Seq<char>>,
}

impl View for HyprlandState {
    type V = StateView;

    open spec fn view(&self) -> StateView {
        StateView {
            active_address: viewed(self.active_address),
            clients: self.clients@,
            event_stream_connected: self.event_stream_connected,
            last_event: viewed(self.last_event),
            last_event_at: viewed(self.last_event_at),
            last_checked_at: viewed(self.last_checked_at),
        }
    }
}

impl Default for HyprlandState {
    fn default() -> (r: Self)
        ensures
            r@ == (StateView {
                active_address: None,
                clients: Seq::empty(),
                event_stream_connected: false,
                last_event: None,
                last_event_at: None,
                last_checked_at: None,
            }),
    {
        HyprlandState {
            active_address: None,
            clients: TextMap::new(),
            event_stream_connected: false,
            last_event: None,
            last_event_at: None,
            last_checked_at: None,
        }
    }
}

/// A window of which only the address, the workspace, the class and the title are known.
pub open spec fn opened_client(
    address: Seq<char>,
    workspace_id: Option<i64>,
    class_name: Seq<char>,
    title: Seq<char>,
) -> ClientView {
    ClientView {
        address,
        class_name,
        title,
        pid: None,
        workspace_id,
        focus_history_id: None,
        rect: None,
    }
}

/// The windows with a new title for the one at `address`, if it is known.
pub open spec fn retitled(
    clients: Seq<(Seq<char>, ClientView)>,
    address: Seq<char>,
    title: Seq<char>,
) -> Seq<(Seq<char>, ClientView)> {
    match lookup(clients, address) {
        Some(client) => with_entry(clients, address, ClientView { title, ..client }),
        None => clients,
    }
}

/// The windows with the one at `client.address`, unless that one is already known.
pub open spec fn with_opened(
    clients: Seq<(Seq<char>, ClientView)>,
    client: ClientView,
) -> Seq<(Seq<char>, ClientView)> {
    if has_key(clients, client.address) {
        clients
    } else {
        with_entry(clients, client.address, client)
    }
}

/// The name and the payload of an event line: what stands before and after the first `>>`.
pub open spec fn event_parts(line: Seq<char>) -> (Seq<char>, Seq<char>) {
    match split_first(line, ">>"@) {
        Some(parts) => parts,
        None => (line, Seq::empty()),
    }
}

impl StateView {
    /// The state after the event `name` with the given payload, apart from the note of the line.
    pub open spec fn moved(self, name: Seq<char>, payload: Seq<char>) -> StateView {
        if name == "activewindowv2"@ {
            StateView {
                active_address: if payload.len() == 0 {
                    None
                } else {
                    Some(normalized(payload))
                },
                ..self
            }
        } else if name == "windowtitlev2"@ {
            match split_first(payload, ","@) {
                Some((address, title)) => StateView {
                    clients: retitled(self.clients, normalized(address), title),
                    ..self
                },
                None => self,
            }
        } else if name == "openwindow"@ {
            let values = split_limited(payload, ","@, 4);
            if values.len() == 4 {
                StateView {
                    clients: with_opened(
                        self.clients,
                        opened_client(
                            normalized(values[0]),
                            parsed_i64(values[1]),
                            values[2],
                            values[3],
                        ),
                    ),
                    ..self
                }
            } else {
                self
            }
        } else if name == "closewindow"@ {
            let address = normalized(payload);
            StateView {
                clients: without_key(self.clients, address),
                active_address: if self.active_address == Some(address) {
                    None
                } else {
                    self.active_address
                },
                ..self
            }
        } else {
            self
        }
    }

    /// The state after an event line that came at the time `now`.
    pub open spec fn after_event(self, line: Seq<char>, now: Seq<char>) -> StateView {
        let noted = StateView { last_event: Some(line), last_event_at: Some(now), ..self };
        noted.moved(event_parts(line).0, event_parts(line).1)
    }
}

/// Takes the new title of a window in.
fn retitle(state: &mut HyprlandState, address: &str, title: &str)
    ensures
        final(state)@ == (StateView {
            clients: retitled(old(state)@.clients, address@, title@),
            ..old(state)@
        }),
{
    let updated = match state.clients.get(address) {
        Some(client) => {
            let mut client = client.clone();
            client.title = title.to_owned();
            Some(client)
        },
        None => None,
    };
    if let Some(client) = updated {
        state.clients.insert(address.to_owned(), client);
    }
}

/// Takes a window in that was opened, unless it is already known.
fn open_window(state: &mut HyprlandState, values: &Vec<&str>)
    requires
        values@.len() == 4,
    ensures
        final(state)@ == (StateView {
            clients: with_opened(
                old(state)@.clients,
                opened_client(
                    normalized(slices(values@)[0]),
                    parsed_i64(slices(values@)[1]),
                    slices(values@)[2],
                    slices(values@)[3],
                ),
            ),
            ..old(state)@
        }),
{
    let address = normalize_hypr_address(values[0]);
    if !state.clients.contains_key(address.as_str()) {
        let client = HyprClient {
            address: address.clone(),
            class_name: values[2].to_owned(),
            title: values[3].to_owned(),
            pid: None,
            workspace_id: parse_i64(values[1]),
            focus_history_id: None,
            rect: None,
        };
        state.clients.insert(address, client);
    }
}

/// Forgets a window that was closed.
fn close_window(state: &mut HyprlandState, address: &str)
    ensures
        final(state)@ == (StateView {
            clients: without_key(old(state)@.clients, address@),
            active_address: if old(state)@.active_address == Some(address@) {
                None
            } else {
                old(state)@.active_address
            },
            ..old(state)@
        }),
{
    state.clients.remove(address);
    let was_active = match &state.active_address {
        Some(active) => same_text(active.as_str(), address),
        None => false,
    };
    if was_active {
        state.active_address = None;
    }
}

/// Takes an event line of Hyprland's event socket in, which came at the time `now`.
pub fn apply_hyprland_event(state: &mut HyprlandState, line: &str, now: String)
    ensures
        final(state)@ == old(state)@.after_event(line@, now@),
{
    let (event_name, event_payload) = match split_once(line, ">>") {
        Some((name, payload)) => (name, payload),
        None => (line, ""),
    };
    proof {
        reveal_strlit("");
        assert(""@ =~= Seq::<char>::empty());
    }
    state.last_event = Some(line.to_owned());
    state.last_event_at = Some(now);
    if same_text(event_name, "activewindowv2") {
        if event_payload.is_empty() {
            state.active_address = None;
        } else {
            state.active_address = Some(normalize_hypr_address(event_payload));
        }
    } else if same_text(event_name, "windowtitlev2") {
        if let Some((address, title)) = split_once(event_payload, ",") {
            let address = normalize_hypr_address(address);
            retitle(state, address.as_str(), title);
        }
    } else if same_text(event_name, "openwindow") {
        let values = split_parts(event_payload, ",", 4);
        if values.len() == 4 {
            open_window(state, &values);
        }
    } else if same_text(event_name, "closewindow") {
        let address = normalize_hypr_address(event_payload);
        close_window(state, address.as_str());
    }
}

/// The windows that a list of reports gives, by their addresses: of two reports for one address
/// the later counts.
pub open spec fn clients_of(items: Seq<JsonView>) -> Seq<(Seq<char>, ClientView)>
    decreases items.len(),
{
    if items.len() == 0 {
        Seq::empty()
    } else {
        let before = clients_of(items.drop_last());
        match client_of(items.last()) {
            Some(client) => with_entry(before, client.address, client),
            None => before,
        }
    }
}

/// The window that an optional report gives.
pub open spec fn reported_client(reply: Option<JsonView>) -> Option<ClientView> {
    match reply {
        Some(value) => client_of(value),
        None => None,
    }
}

/// The windows that an optional list of reports gives.
pub open spec fn reported_clients(reply: Option<JsonView>) -> Option<
    Seq<(Seq<char>, ClientView)>,
> {
    match reply {
        Some(value) => match value.items() {
            Some(items) => Some(clients_of(items)),
            None => None,
        },
        None => None,
    }
}

impl StateView {
    /// The state after Hyprland was asked for its active window and its windows, where each of
    /// the two answers may be missing.
    pub open spec fn refreshed(
        self,
        active: Option<ClientView>,
        clients: Option<Seq<(Seq<char>, ClientView)>>,
        checked_at: Seq<char>,
    ) -> StateView {
        let known = match clients {
            Some(listed) => listed,
            None => self.clients,
        };
        match active {
            Some(client) => StateView {
                active_address: Some(client.address),
                clients: with_entry(known, client.address, client),
                last_checked_at: Some(checked_at),
                ..self
            },
            None => StateView {
                active_address: match self.active_address {
                    Some(address) => if has_key(known, address) {
                        Some(address)
                    } else {
                        None
                    },
                    None => None,
                },
                clients: known,
                last_checked_at: Some(checked_at),
                ..self
            },
        }
    }
}

/// What Hyprland answered: to the question for its active window, and to that for its windows. Each
/// answer may be missing.
#[derive(Debug)]
pub struct HyprctlAnswers {
    pub active: Option<Json>,
    pub clients: Option<Json>,
    pub checked_at: String,
}

/// What [`HyprctlAnswers`] stand for.
pub ghost struct AnswersView {
    pub active: Option<JsonView>,
    pub clients: Option<JsonView>,
    pub checked_at: Seq<char>,
}

impl View for HyprctlAnswers {
    type V = AnswersView;

    open spec fn view(&self) -> AnswersView {
        AnswersView {
            active: viewed(self.active),
            clients: viewed(self.clients),
            checked_at: self.checked_at@,
        }
    }
}

impl StateView {
    /// The state after Hyprland's tool was asked, or could not be: then nothing changes.
    pub open spec fn asked(self, answers: Option<AnswersView>) -> StateView {
        match answers {
            Some(answers) => self.refreshed(
                reported_client(answers.active),
                reported_clients(answers.clients),
                answers.checked_at,
            ),
            None => self,
        }
    }
}

/// The windows that a list of reports gives, by their addresses.
fn collect_clients(items: &Vec<Json>) -> (clients: TextMap<HyprClient>)
    ensures
        clients@ == clients_of(item_views(items@)),
{
    let ghost all = item_views(items@);
    let mut clients: TextMap<HyprClient> = TextMap::new();
    let mut i: usize = 0;
    assert(all.take(0) =~= Seq::<JsonView>::empty());
    while i < items.len()
        invariant
            all == item_views(items@),
            i <= items@.len(),
            clients@ == clients_of(all.take(i as int)),
        decreases items@.len() - i,
    {
        proof {
            assert(all.take(i + 1).drop_last() =~= all.take(i as int));
            assert(all.take(i + 1).last() == items@[i as int]@);
        }
        if let Some(client) = hypr_client_from_value(&items[i]) {
            clients.insert(client.address.clone(), client);
        }
        i = i + 1;
    }
    assert(all.take(i as int) =~= all);
    clients
}

/// Takes Hyprland's answers in, or that there are none because its tool is not installed.
pub fn refresh_hyprland_state(state: &mut HyprlandState, answers: Option<HyprctlAnswers>)
    ensures
        final(state)@ == old(state)@.asked(viewed(answers)),
{
    let answers = match answers {
        Some(answers) => answers,
        None => {
            return ;
        },
    };
    let active = match &answers.active {
        Some(value) => hypr_client_from_value(value),
        None => None,
    };
    let listed = match &answers.clients {
        Some(value) => value.as_array(),
        None => None,
    };
    state.last_checked_at = Some(answers.checked_at.clone());
    if let Some(items) = listed {
        state.clients = collect_clients(items);
    }
    match active {
        Some(client) => {
            state.active_address = Some(client.address.clone());
            state.clients.insert(client.address.clone(), client);
        },
        None => {
            let gone = match &state.active_address {
                Some(address) => !state.clients.contains_key(address.as_str()),
                None => false,
            };
            if gone {
                state.active_address = None;
            }
        },
    }
}

} // verus!
