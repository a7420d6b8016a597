//! What holds of what is published of the window managers.

use vstd::prelude::*;

use crate::client::{chrome_class, client_fields, ClientView};
use crate::context::{
    backends, client_object, first_five, id_hex, optional_x11, title_match, title_matches,
    top_candidates, wm_fields, x11_object, SurroundingsView, X11View,
};
use crate::json::{optional_field, optional_text, JsonView};
use crate::laws::published::{law_wm_fields, lemma_lookup_in_optional};
use crate::laws::texts::{hex_value, law_digits};
use crate::scoring::CandidateView;
use crate::similarity::title_likeness;
use crate::state::StateView;
use crate::table::{lemma_lookup_in_both, lemma_lookup_in_one, lookup};
use crate::text::{digits_of, parsed_u64};

verus! {

/// One more window is listed with the windows whose titles are like the tab's just where its class
/// is of the Chrome family, its title is at least half like the tab's, and less than five are
/// listed; it is listed last, as it is published, and the others stay.
pub proof fn law_one_more_title_match(
    title: Seq<char>,
    clients: Seq<(Seq<char>, ClientView)>,
    entry: (Seq<char>, ClientView),
)
    ensures
        title_matches(title, Seq::empty()).len() == 0,
        ({
            let (shared, all) = title_likeness(title, entry.1.title);
            let before = title_matches(title, clients);
            let after = title_matches(title, clients.push(entry));
            if chrome_class(entry.1.class_name) && 2 * shared >= all && before.len() < 5 {
                after == before.push(JsonView::Object(client_fields(entry.1)))
            } else {
                after == before
            }
        }),
{
    reveal(Seq::filter);
    let fits = |entry: (Seq<char>, ClientView)| title_match(title, entry.1);
    let shown = |entry: (Seq<char>, ClientView)| client_object(entry.1);
    assert(clients.push(entry).drop_last() =~= clients);
    let old = clients.filter(fits).map_values(shown);
    let new = clients.push(entry).filter(fits).map_values(shown);
    let one = JsonView::Object(client_fields(entry.1));
    if title_match(title, entry.1) {
        assert(new =~= old.push(one));
    } else {
        assert(new =~= old);
    }
    assert(title_matches(title, clients) == first_five(old));
    assert(title_matches(title, clients.push(entry)) == first_five(new));
    assert(first_five(old.push(one)) =~= if old.len() < 5 {
        first_five(old).push(one)
    } else {
        first_five(old)
    });
}

/// Every window that is listed with those whose titles are like the tab's is known, of the Chrome
/// family, and has a title at least half like the tab's. Every such window is listed where less
/// than five are.
pub proof fn law_title_matches(title: Seq<char>, clients: Seq<(Seq<char>, ClientView)>)
    ensures
        ({
            let listed = title_matches(title, clients);
            &&& listed.len() <= 5
            &&& forall|i: int|
                0 <= i < listed.len() ==> exists|k: int|
                    0 <= k < clients.len() && #[trigger] listed[i] == JsonView::Object(
                        client_fields((#[trigger] clients[k]).1),
                    ) && chrome_class(clients[k].1.class_name) && 2 * title_likeness(
                        title,
                        clients[k].1.title,
                    ).0 >= title_likeness(title, clients[k].1.title).1
            &&& listed.len() < 5 ==> forall|k: int|
                0 <= k < clients.len() && chrome_class((#[trigger] clients[k]).1.class_name) && 2
                    * title_likeness(title, clients[k].1.title).0 >= title_likeness(
                    title,
                    clients[k].1.title,
                ).1 ==> exists|i: int|
                    0 <= i < listed.len() && #[trigger] listed[i] == JsonView::Object(
                        client_fields(clients[k].1),
                    )
        }),
    decreases clients.len(),
{
    if clients.len() == 0 {
        law_one_more_title_match(title, clients, (Seq::empty(), arbitrary()));
        assert(clients =~= Seq::empty());
    } else {
        let rest = clients.drop_last();
        let entry = clients.last();
        assert(rest.push(entry) =~= clients);
        law_title_matches(title, rest);
        law_one_more_title_match(title, rest, entry);
        let before = title_matches(title, rest);
        let listed = title_matches(title, clients);
        assert forall|i: int| 0 <= i < listed.len() implies exists|k: int|
            0 <= k < clients.len() && #[trigger] listed[i] == JsonView::Object(
                client_fields((#[trigger] clients[k]).1),
            ) && chrome_class(clients[k].1.class_name) && 2 * title_likeness(
                title,
                clients[k].1.title,
            ).0 >= title_likeness(title, clients[k].1.title).1 by {
            if i < before.len() {
                assert(listed[i] == before[i]);
                let k = choose|k: int|
                    0 <= k < rest.len() && before[i] == JsonView::Object(
                        client_fields((#[trigger] rest[k]).1),
                    ) && chrome_class(rest[k].1.class_name) && 2 * title_likeness(
                        title,
                        rest[k].1.title,
                    ).0 >= title_likeness(title, rest[k].1.title).1;
                assert(clients[k] == rest[k]);
            } else {
                assert(clients[clients.len() - 1] == entry);
            }
        }
        if listed.len() < 5 {
            assert forall|k: int|
                0 <= k < clients.len() && chrome_class((#[trigger] clients[k]).1.class_name) && 2
                    * title_likeness(title, clients[k].1.title).0 >= title_likeness(
                    title,
                    clients[k].1.title,
                ).1 implies exists|i: int|
                0 <= i < listed.len() && #[trigger] listed[i] == JsonView::Object(
                    client_fields(clients[k].1),
                ) by {
                if k < rest.len() {
                    assert(clients[k] == rest[k]);
                    let i = choose|i: int|
                        0 <= i < before.len() && #[trigger] before[i] == JsonView::Object(
                            client_fields(rest[k].1),
                        );
                    assert(listed[i] == before[i]);
                } else {
                    assert(listed[listed.len() - 1] == JsonView::Object(client_fields(entry.1)));
                }
            }
        }
    }
}

/// The condition that a window is of the Chrome family and has a title at least half like the
/// tab's.
pub open spec fn half_alike(title: Seq<char>) -> spec_fn((Seq<char>, ClientView)) -> bool {
    |entry: (Seq<char>, ClientView)|
        chrome_class(entry.1.class_name) && 2 * title_likeness(title, entry.1.title).0
            >= title_likeness(title, entry.1.title).1
}

/// As many windows are listed with those whose titles are like the tab's as there are, up to five,
/// and where there are at most five, every one of them is.
pub proof fn law_all_title_matches(title: Seq<char>, clients: Seq<(Seq<char>, ClientView)>)
    ensures
        ({
            let listed = title_matches(title, clients);
            let count = clients.filter(half_alike(title)).len();
            &&& count <= 5 ==> listed.len() == count
            &&& count > 5 ==> listed.len() == 5
            &&& count <= 5 ==> forall|k: int|
                0 <= k < clients.len() && half_alike(title)(#[trigger] clients[k]) ==> exists|i: int|
                    0 <= i < listed.len() && #[trigger] listed[i] == JsonView::Object(
                        client_fields(clients[k].1),
                    )
        }),
    decreases clients.len(),
{
    reveal(Seq::filter);
    if clients.len() == 0 {
        law_one_more_title_match(title, clients, (Seq::empty(), arbitrary()));
        assert(clients =~= Seq::empty());
    } else {
        let rest = clients.drop_last();
        let entry = clients.last();
        assert(rest.push(entry) =~= clients);
        law_all_title_matches(title, rest);
        law_one_more_title_match(title, rest, entry);
        let before = title_matches(title, rest);
        let listed = title_matches(title, clients);
        if clients.filter(half_alike(title)).len() <= 5 {
            assert forall|k: int|
                0 <= k < clients.len() && half_alike(title)(#[trigger] clients[k]) implies exists|
                i: int,
            |
                0 <= i < listed.len() && #[trigger] listed[i] == JsonView::Object(
                    client_fields(clients[k].1),
                ) by {
                if k < rest.len() {
                    assert(clients[k] == rest[k]);
                    let i = choose|i: int|
                        0 <= i < before.len() && #[trigger] before[i] == JsonView::Object(
                            client_fields(rest[k].1),
                        );
                    assert(listed[i] == before[i]);
                } else {
                    assert(listed[listed.len() - 1] == JsonView::Object(client_fields(entry.1)));
                }
            }
        }
    }
}

/// What is published of the window managers, by what was found out: Hyprland is one of them where
/// its tool is installed or a window is known, and only then anything is published of it; the X
/// server is one where its tool is installed, and only then its active window is published.
pub proof fn law_backends(
    title: Seq<char>,
    state: StateView,
    candidates: Seq<CandidateView>,
    surroundings: SurroundingsView,
)
    ensures
        ({
            let wm = JsonView::Object(wm_fields(title, state, candidates, surroundings));
            let hyprland = surroundings.hyprctl_installed || state.clients.len() > 0;
            let x11 = surroundings.xdotool_installed;
            &&& wm.field("available_backends"@) matches Some(JsonView::Array(names)) && (if hyprland
                && x11 {
                names.len() == 2 && names[0] == JsonView::Text("hyprland"@) && names[1]
                    == JsonView::Text("x11"@)
            } else if hyprland {
                names.len() == 1 && names[0] == JsonView::Text("hyprland"@)
            } else if x11 {
                names.len() == 1 && names[0] == JsonView::Text("x11"@)
            } else {
                names.len() == 0
            })
            &&& wm.field("hyprland_candidates"@) is Some <==> hyprland
            &&& wm.field("hyprland_event_stream_connected"@) is Some <==> hyprland
            &&& wm.field("hyprland_active"@) is Some <==> hyprland && state.active_address is Some
            &&& wm.field("hyprland_title_matches"@) is Some <==> hyprland && title.len() > 0
            &&& wm.field("x11_active"@) is Some <==> x11 && surroundings.x11_active is Some
        }),
{
    law_wm_fields(title, state, candidates, surroundings);
    lemma_without_hyprland(title, state, candidates, surroundings);
}

proof fn lemma_without_hyprland(
    title: Seq<char>,
    state: StateView,
    candidates: Seq<CandidateView>,
    surroundings: SurroundingsView,
)
    ensures
        !surroundings.hyprctl_installed && state.clients.len() == 0 ==> {
            let wm = JsonView::Object(wm_fields(title, state, candidates, surroundings));
            &&& wm.field("hyprland_candidates"@) is None
            &&& wm.field("hyprland_event_stream_connected"@) is None
            &&& wm.field("hyprland_active"@) is None
            &&& wm.field("hyprland_title_matches"@) is None
        },
{
    reveal_strlit("hyprland_candidates");
    reveal_strlit("hyprland_event_stream_connected");
    reveal_strlit("hyprland_active");
    reveal_strlit("hyprland_title_matches");
    reveal_strlit("checked_at");
    reveal_strlit("x11_active");
    reveal_strlit("available_backends");
    assert("hyprland_candidates"@.len() == 19 && "hyprland_event_stream_connected"@.len() == 31);
    assert("hyprland_active"@.len() == 15 && "hyprland_title_matches"@.len() == 22);
    assert("checked_at"@.len() == 10 && "x11_active"@.len() == 10);
    assert("available_backends"@.len() == 18);
    if !surroundings.hyprctl_installed && state.clients.len() == 0 {
        let time = JsonView::Text(surroundings.checked_at);
        let first = seq![("checked_at"@, time)];
        let nothing = Seq::<(Seq<char>, JsonView)>::empty();
        let active = if surroundings.xdotool_installed {
            optional_x11(surroundings.x11_active)
        } else {
            None
        };
        let x11 = optional_field("x11_active"@, active);
        let available = JsonView::Array(backends(state, surroundings));
        let last = seq![("available_backends"@, available)];
        lemma_lookup_in_one("checked_at"@, time);
        lemma_lookup_in_both(first, nothing);
        lemma_lookup_in_optional("x11_active"@, active);
        lemma_lookup_in_both(first + nothing, x11);
        lemma_lookup_in_one("available_backends"@, available);
        lemma_lookup_in_both(first + nothing + x11, last);
        assert(wm_fields(title, state, candidates, surroundings) == first + nothing + x11 + last);
    }
}

/// What is published of Hyprland, where anything is: whether its events come in, the last of them
/// and when it came, when it was last asked, the best candidates, and the windows with a title like
/// the tab's. The active window is published with all that is known of it, or with its address
/// where nothing is.
pub proof fn law_hyprland_context(
    title: Seq<char>,
    state: StateView,
    candidates: Seq<CandidateView>,
    surroundings: SurroundingsView,
)
    requires
        surroundings.hyprctl_installed || state.clients.len() > 0,
    ensures
        ({
            let wm = JsonView::Object(wm_fields(title, state, candidates, surroundings));
            &&& wm.field("checked_at"@) == Some(JsonView::Text(surroundings.checked_at))
            &&& wm.field("hyprland_event_stream_connected"@) == Some(
                JsonView::Bool(state.event_stream_connected),
            )
            &&& wm.field("hyprland_last_event"@) == match state.last_event {
                Some(line) => Some(JsonView::Text(line)),
                None => None,
            }
            &&& wm.field("hyprland_last_event_at"@) == match state.last_event_at {
                Some(time) => Some(JsonView::Text(time)),
                None => None,
            }
            &&& wm.field("hyprland_last_checked_at"@) == match state.last_checked_at {
                Some(time) => Some(JsonView::Text(time)),
                None => None,
            }
            &&& wm.field("hyprland_candidates"@) == Some(
                JsonView::Array(top_candidates(candidates)),
            )
            &&& title.len() > 0 ==> wm.field("hyprland_title_matches"@) == Some(
                JsonView::Array(title_matches(title, state.clients)),
            )
            &&& state.active_address matches Some(address) ==> match lookup(
                state.clients,
                address,
            ) {
                Some(client) => wm.field("hyprland_active"@) == Some(
                    JsonView::Object(client_fields(client)),
                ),
                None => wm.field("hyprland_active"@) == Some(
                    JsonView::Object(seq![("address"@, JsonView::Text(address))]),
                ),
            }
        }),
{
    law_wm_fields(title, state, candidates, surroundings);
}

/// What is published of the active window of an X server: its id as it came, its id in base sixteen
/// behind `0x` where it is a number, and its title where it has one.
pub proof fn law_x11_window(active: X11View, n: u64)
    ensures
        ({
            let window = x11_object(active);
            &&& window.field("id_decimal"@) == Some(JsonView::Text(active.id_decimal))
            &&& window.field("title"@) == match active.title {
                Some(title) => Some(JsonView::Text(title)),
                None => None,
            }
            &&& parsed_u64(active.id_decimal) is None ==> window.field("id_hex"@) is None
            &&& parsed_u64(active.id_decimal) == Some(n) ==> (window.field("id_hex"@) matches Some(
                JsonView::Text(hex),
            ) && hex.len() > 2 && hex[0] == '0' && hex[1] == 'x' && hex_value(hex.skip(2)) == n && (n
                > 0 ==> hex[2] != '0'))
        }),
{
    reveal_strlit("id_decimal");
    reveal_strlit("id_hex");
    reveal_strlit("title");
    reveal_strlit("0x");
    assert("id_decimal"@.len() == 10 && "id_hex"@.len() == 6 && "title"@.len() == 5);
    let id = JsonView::Text(active.id_decimal);
    let first = seq![("id_decimal"@, id)];
    let hex = optional_text(id_hex(active.id_decimal));
    let title = optional_text(active.title);
    lemma_lookup_in_one("id_decimal"@, id);
    lemma_lookup_in_optional("id_hex"@, hex);
    lemma_lookup_in_optional("title"@, title);
    lemma_lookup_in_both(first, optional_field("id_hex"@, hex));
    lemma_lookup_in_both(
        first + optional_field("id_hex"@, hex),
        optional_field("title"@, title),
    );
    if let Some(number) = parsed_u64(active.id_decimal) {
        law_digits(number as nat);
        assert(("0x"@ + digits_of(number as nat, 16)).skip(2) =~= digits_of(number as nat, 16));
        assert("0x"@[0] == '0' && "0x"@[1] == 'x');
    }
}

/// The active window of an X server is published as it was found.
pub proof fn law_x11_context(
    title: Seq<char>,
    state: StateView,
    candidates: Seq<CandidateView>,
    surroundings: SurroundingsView,
)
    requires
        surroundings.xdotool_installed,
    ensures
        JsonView::Object(wm_fields(title, state, candidates, surroundings)).field("x11_active"@)
            == match surroundings.x11_active {
            Some(active) => Some(x11_object(active)),
            None => None,
        },
{
    law_wm_fields(title, state, candidates, surroundings);
}

} // verus!
