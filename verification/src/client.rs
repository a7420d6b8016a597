//! The windows that Hyprland knows.

use vstd::prelude::*;
use vstd::string::*;

use crate::geometry::{hypr_rect, rect_from_hypr_client, rect_json, rect_object, Rect};
use crate::json::{
    absent, field_views, insert_optional_i64, json_object, json_text, lemma_new_field,
    optional_field, optional_integer, push_field, viewed, Json, JsonView,
};
use crate::text::{
    contains_text, has_substring, lemma_trimmed_ends, lowercase, trimmed, white_space,
};

verus! {

/// A window that Hyprland knows.
#[derive(Debug, PartialEq)]
pub struct HyprClient {
    pub address: String,
    pub class_name: String,
    pub title: String,
    pub pid: Option<i64>,
    pub workspace_id: Option<i64>,
    pub focus_history_id: Option<i64>,
    pub rect: Option<Rect>,
}

/// What a [`HyprClient`] stands for.
pub ghost struct ClientView {
    pub address: Seq<char>,
    pub class_name: Seq<char>,
    pub title: Seq<char>,
    pub pid: Option<i64>,
    pub workspace_id: Option<i64>,
    pub focus_history_id: Option<i64>,
    pub rect: Option<Rect>,
}

impl View for HyprClient {
    type V = ClientView;

    open spec fn view(&self) -> ClientView {
        ClientView {
            address: self.address@,
            class_name: self.class_name@,
            title: self.title@,
            pid: self.pid,
            workspace_id: self.workspace_id,
            focus_history_id: self.focus_history_id,
            rect: self.rect,
        }
    }
}

impl Clone for HyprClient {
    fn clone(&self) -> (r: Self)
        ensures
            r@ == self@,
    {
        HyprClient {
            address: self.address.clone(),
            class_name: self.class_name.clone(),
            title: self.title.clone(),
            pid: self.pid,
            workspace_id: self.workspace_id,
            focus_history_id: self.focus_history_id,
            rect: self.rect,
        }
    }
}

impl Default for HyprClient {
    fn default() -> (r: Self)
        ensures
            r@ == (ClientView {
                address: Seq::empty(),
                class_name: Seq::empty(),
                title: Seq::empty(),
                pid: None,
                workspace_id: None,
                focus_history_id: None,
                rect: None,
            }),
    {
        HyprClient {
            address: String::new(),
            class_name: String::new(),
            title: String::new(),
            pid: None,
            workspace_id: None,
            focus_history_id: None,
            rect: None,
        }
    }
}

/// The one form of a window address: no white space around it, and `0x` in front unless it is
/// empty.
pub open spec fn normalized(raw: Seq<char>) -> Seq<char> {
    let bare = trimmed(raw);
    if bare.len() == 0 || "0x"@.is_prefix_of(bare) {
        bare
    } else {
        "0x"@ + bare
    }
}

/// The one form of a window address.
pub fn normalize_hypr_address(raw: &str) -> (address: String)
    ensures
        address@ == normalized(raw@),
{
    let bare = raw.trim();
    proof {
        reveal_strlit("0x");
    }
    if bare.is_empty() {
        return bare.to_owned();
    }
    if bare.unicode_len() >= 2 && bare.get_char(0) == '0' && bare.get_char(1) == 'x' {
        assert("0x"@.is_prefix_of(bare@)) by {
            assert("0x"@ =~= bare@.subrange(0, 2));
        }
        bare.to_owned()
    } else {
        assert(!"0x"@.is_prefix_of(bare@)) by {
            if "0x"@.is_prefix_of(bare@) {
                assert(bare@.subrange(0, 2)[0] == '0');
                assert(bare@.subrange(0, 2)[1] == 'x');
            }
        }
        "0x".to_owned().concat(bare)
    }
}

/// An address in its one form stays as it is.
pub proof fn law_normalized_is_stable(raw: Seq<char>)
    ensures
        normalized(normalized(raw)) == normalized(raw),
{
    reveal_strlit("0x");
    lemma_trimmed_ends(raw);
    let address = normalized(raw);
    if address.len() > 0 {
        assert(!white_space('0'));
        assert(!white_space(address.first()));
        assert(!white_space(address.last()));
        assert(trimmed(address) == address);
        if !"0x"@.is_prefix_of(trimmed(raw)) {
            assert("0x"@ =~= address.subrange(0, 2));
        }
    }
}

/// Whether the class name in lower case holds the name of a browser of the Chrome family.
pub open spec fn names_chrome(lowered: Seq<char>) -> bool {
    ||| has_substring(lowered, "chrome"@)
    ||| has_substring(lowered, "chromium"@)
    ||| has_substring(lowered, "brave"@)
    ||| has_substring(lowered, "edge"@)
    ||| has_substring(lowered, "vivaldi"@)
}

/// Whether a window of this class belongs to a browser of the Chrome family.
pub open spec fn chrome_class(class_name: Seq<char>) -> bool {
    names_chrome(lowercase(class_name))
}

/// Whether a class name that is already in lower case holds the name of a browser of the Chrome
/// family.
pub fn lowered_looks_like_chrome(lowered: &str) -> (r: bool)
    ensures
        r == names_chrome(lowered@),
{
    contains_text(lowered, "chrome") || contains_text(lowered, "chromium") || contains_text(
        lowered,
        "brave",
    ) || contains_text(lowered, "edge") || contains_text(lowered, "vivaldi")
}

/// Whether a window of this class belongs to a browser of the Chrome family.
pub fn looks_like_chrome(class_name: &str) -> (r: bool)
    ensures
        r == chrome_class(class_name@),
{
    let lowered = class_name.to_lowercase();
    lowered_looks_like_chrome(lowered.as_str())
}

/// The text of the field `key`, or the empty text.
pub open spec fn text_or_empty(value: JsonView, key: Seq<char>) -> Seq<char> {
    match value.text_field(key) {
        Some(text) => text,
        None => Seq::empty(),
    }
}

/// The number of the workspace that Hyprland reports of a window.
pub open spec fn workspace_of(value: JsonView) -> Option<i64> {
    match value.field("workspace"@) {
        Some(workspace) => workspace.integer_field("id"@),
        None => None,
    }
}

/// The window that Hyprland reports: none where the address is missing or blank.
pub open spec fn client_of(value: JsonView) -> Option<ClientView> {
    match value.text_field("address"@) {
        Some(address) => if normalized(address).len() == 0 {
            None
        } else {
            Some(
                ClientView {
                    address: normalized(address),
                    class_name: text_or_empty(value, "class"@),
                    title: text_or_empty(value, "title"@),
                    pid: value.integer_field("pid"@),
                    workspace_id: workspace_of(value),
                    focus_history_id: value.integer_field("focusHistoryID"@),
                    rect: hypr_rect(value),
                },
            )
        },
        None => None,
    }
}

/// The text of the field `key`, or the empty text.
fn get_text_or_empty(value: &Json, key: &str) -> (r: String)
    ensures
        r@ == text_or_empty(value@, key@),
{
    match value.get_str(key) {
        Some(text) => text.to_owned(),
        None => String::new(),
    }
}

/// The window that Hyprland reports.
pub fn hypr_client_from_value(value: &Json) -> (r: Option<HyprClient>)
    ensures
        viewed(r) == client_of(value@),
{
    let address = match value.get_str("address") {
        Some(raw) => normalize_hypr_address(raw),
        None => {
            return None;
        },
    };
    if address.as_str().is_empty() {
        return None;
    }
    let workspace_id = match value.get("workspace") {
        Some(workspace) => workspace.get_i64("id"),
        None => None,
    };
    Some(
        HyprClient {
            address,
            class_name: get_text_or_empty(value, "class"),
            title: get_text_or_empty(value, "title"),
            pid: value.get_i64("pid"),
            workspace_id,
            focus_history_id: value.get_i64("focusHistoryID"),
            rect: rect_from_hypr_client(value),
        },
    )
}

/// The JSON object of an optional place.
pub open spec fn optional_rect(rect: Option<Rect>) -> Option<JsonView> {
    match rect {
        Some(inner) => Some(rect_object(inner)),
        None => None,
    }
}

/// The fields by which a window is published.
pub open spec fn client_fields(client: ClientView) -> Seq<(Seq<char>, JsonView)> {
    seq![
        ("address"@, JsonView::Text(client.address)),
        ("class"@, JsonView::Text(client.class_name)),
        ("title"@, JsonView::Text(client.title)),
    ] + optional_field("pid"@, optional_integer(client.pid)) + optional_field(
        "workspace_id"@,
        optional_integer(client.workspace_id),
    ) + optional_field("focus_history_id"@, optional_integer(client.focus_history_id))
        + optional_field("bounds"@, optional_rect(client.rect))
}

/// The fields by which a window is published.
pub(crate) fn compact_fields(client: &HyprClient) -> (fields: Vec<(String, Json)>)
    ensures
        field_views(fields@) == client_fields(client@),
{
    let mut fields: Vec<(String, Json)> = Vec::new();
    push_field(&mut fields, "address", json_text(client.address.as_str()));
    push_field(&mut fields, "class", json_text(client.class_name.as_str()));
    push_field(&mut fields, "title", json_text(client.title.as_str()));
    proof {
        reveal_strlit("address");
        reveal_strlit("class");
        reveal_strlit("title");
        reveal_strlit("pid");
        reveal_strlit("workspace_id");
        reveal_strlit("focus_history_id");
        assert("address"@.len() == 7);
        assert("class"@.len() == 5);
        assert("title"@.len() == 5);
        assert("pid"@.len() == 3);
        assert("workspace_id"@.len() == 12);
        assert("focus_history_id"@.len() == 16);
        assert(field_views(fields@) =~= seq![
            ("address"@, JsonView::Text(client.address@)),
            ("class"@, JsonView::Text(client.class_name@)),
            ("title"@, JsonView::Text(client.title@)),
        ]);
        assert(absent(field_views(fields@), "pid"@));
        assert(absent(field_views(fields@), "workspace_id"@));
        assert(absent(field_views(fields@), "focus_history_id"@));
        lemma_new_field(field_views(fields@), "pid"@, optional_integer(client.pid));
    }
    insert_optional_i64(&mut fields, "pid", client.pid);
    proof {
        lemma_new_field(
            field_views(fields@),
            "workspace_id"@,
            optional_integer(client.workspace_id),
        );
    }
    insert_optional_i64(&mut fields, "workspace_id", client.workspace_id);
    proof {
        lemma_new_field(
            field_views(fields@),
            "focus_history_id"@,
            optional_integer(client.focus_history_id),
        );
    }
    insert_optional_i64(&mut fields, "focus_history_id", client.focus_history_id);
    if let Some(rect) = &client.rect {
        push_field(&mut fields, "bounds", rect_json(rect));
    }
    assert(field_views(fields@) =~= client_fields(client@));
    fields
}

/// A window as a JSON object.
pub fn compact_hypr_client(client: &HyprClient) -> (r: Json)
    ensures
        r@ == JsonView::Object(client_fields(client@)),
{
    json_object(compact_fields(client))
}

} // verus!
