//! What is published over D-Bus, and what can be asked for there.

use vstd::prelude::*;

use crate::codec::{
    as_fields, as_value, carries, lemma_object_carried, print_value, shape_value, value_fields,
    value_json, value_of, write_json, written_json, Shape,
};
use crate::enrich::DEFAULT_SCHEMA;
use crate::json::{viewed, Json, JsonView};
use crate::table::{lemma_firsts, with_entry, TextMap};

verus! {

/// A D-Bus signal: one for each payload, and one more for a payload whose window is known.
#[derive(Debug, PartialEq)]
pub enum Signal {
    WindowUpdated { window_id: String, payload: String },
    Updated { payload: String },
}

/// What a [`Signal`] stands for.
pub ghost enum SignalView {
    WindowUpdated { window_id: Seq<char>, payload: Seq<char> },
    Updated { payload: Seq<char> },
}

impl View for Signal {
    type V = SignalView;

    open spec fn view(&self) -> SignalView {
        match self {
            Signal::WindowUpdated { window_id, payload } => SignalView::WindowUpdated {
                window_id: window_id@,
                payload: payload@,
            },
            Signal::Updated { payload } => SignalView::Updated { payload: payload@ },
        }
    }
}

/// The signals that a list stands for.
pub open spec fn signal_views(signals: Seq<Signal>) -> Seq<SignalView> {
    signals.map_values(|signal: Signal| signal@)
}

/// The address of the Hyprland window that a payload is about, if it is known.
pub open spec fn mapped_window_id(payload: JsonView) -> Option<Seq<char>> {
    match payload.field("bridge"@) {
        Some(bridge) => match bridge.field("mapped_window"@) {
            Some(mapping) => mapping.text_field("window_id"@),
            None => None,
        },
        None => None,
    }
}

/// What can be asked for: the name of the form that payloads have, the text of the last payload,
/// and the last payload of each Hyprland window.
#[derive(Debug)]
pub struct SharedDbusState {
    pub schema: String,
    pub last_payload: String,
    pub window_payloads: TextMap<Json>,
}

/// What a [`SharedDbusState`] stands for.
pub ghost struct SharedView {
    pub schema: Seq<char>,
    pub last_payload: Seq<char>,
    pub window_payloads: Seq<(Seq<char>, JsonView)>,
}

impl View for SharedDbusState {
    type V = SharedView;

    open spec fn view(&self) -> SharedView {
        SharedView {
            schema: self.schema@,
            last_payload: self.last_payload@,
            window_payloads: self.window_payloads@,
        }
    }
}

impl SharedView {
    /// What can be asked for after a payload was published with the given text.
    pub open spec fn after_payload(self, payload: JsonView, payload_text: Seq<char>) -> SharedView {
        SharedView {
            last_payload: payload_text,
            window_payloads: match mapped_window_id(payload) {
                Some(window_id) => with_entry(self.window_payloads, window_id, payload),
                None => self.window_payloads,
            },
            ..self
        }
    }
}

/// The signals for a payload, in the order in which they are sent.
pub open spec fn signals_for(payload: JsonView, payload_text: Seq<char>) -> Seq<SignalView> {
    (match mapped_window_id(payload) {
        Some(window_id) => seq![
            SignalView::WindowUpdated { window_id, payload: payload_text },
        ],
        None => seq![],
    }) + seq![SignalView::Updated { payload: payload_text }]
}

/// The text of the object that has the last payload of each window under its address.
pub open spec fn window_payloads_text(shared: SharedView) -> Seq<char> {
    match written_json(JsonView::Object(shared.window_payloads)) {
        Some(text) => text,
        None => "{}"@,
    }
}

/// The address of the Hyprland window that a payload is about, if it is known.
fn payload_window(payload: &Json) -> (r: Option<String>)
    ensures
        viewed(r) == mapped_window_id(payload@),
{
    match payload.get("bridge") {
        Some(bridge) => match bridge.get("mapped_window") {
            Some(mapping) => match mapping.get_str("window_id") {
                Some(window_id) => Some(window_id.to_owned()),
                None => None,
            },
            None => None,
        },
        None => None,
    }
}

impl SharedDbusState {
    /// Nothing was published yet.
    pub fn new() -> (r: Self)
        ensures
            r@ == (SharedView {
                schema: DEFAULT_SCHEMA@,
                last_payload: "{}"@,
                window_payloads: Seq::empty(),
            }),
    {
        SharedDbusState {
            schema: DEFAULT_SCHEMA.to_owned(),
            last_payload: "{}".to_owned(),
            window_payloads: TextMap::new(),
        }
    }

    /// Takes in a payload: it is published with the text that writes it, and the signals to send
    /// are told. The value that is written carries what the payload holds. A payload that no text
    /// writes is not published: nothing changes then.
    pub fn process_payload(&mut self, enriched: Json) -> (signals: Option<Vec<Signal>>)
        ensures
            match written_json(enriched@) {
                Some(text) => final(self)@ == old(self)@.after_payload(enriched@, text)
                    && signals is Some && signal_views(signals->0@) == signals_for(
                    enriched@,
                    text,
                ),
                None => final(self)@ == old(self)@ && signals is None,
            },
            carries(as_value(enriched@), enriched@),
    {
        match write_json(&enriched) {
            Some(payload_text) => Some(self.publish(enriched, payload_text)),
            None => None,
        }
    }

    /// Takes in a payload that is published with the given text, and tells which signals to send.
    pub fn publish(&mut self, enriched: Json, payload_text: String) -> (signals: Vec<Signal>)
        ensures
            final(self)@ == old(self)@.after_payload(enriched@, payload_text@),
            signal_views(signals@) == signals_for(enriched@, payload_text@),
    {
        let ghost payload = enriched@;
        let mut signals: Vec<Signal> = Vec::new();
        self.last_payload = payload_text.clone();
        if let Some(window_id) = payload_window(&enriched) {
            self.window_payloads.insert(window_id.clone(), enriched);
            signals.push(Signal::WindowUpdated { window_id, payload: payload_text.clone() });
        }
        signals.push(Signal::Updated { payload: payload_text });
        assert(signal_views(signals@) =~= signals_for(payload, payload_text@));
        signals
    }

    /// The text of the last payload.
    pub fn get_last_payload(&self) -> (r: String)
        ensures
            r@ == self@.last_payload,
    {
        self.last_payload.clone()
    }

    /// The text of the object that has the last payload of each window under its address.
    pub fn get_window_payloads(&self) -> (r: String)
        ensures
            r@ == window_payloads_text(self@),
            carries(
                as_value(JsonView::Object(self@.window_payloads)),
                JsonView::Object(self@.window_payloads),
            ),
    {
        let ghost entries = self.window_payloads@;
        let mut fields: Vec<(String, serde_json::Value)> = Vec::new();
        let mut i: usize = 0;
        while i < self.window_payloads.len()
            invariant
                entries == self.window_payloads@,
                i <= entries.len(),
                fields@.len() == i,
                forall|j: int|
                    0 <= j < i ==> (#[trigger] fields@[j]).0@ == entries[j].0 && value_json(
                        fields@[j].1,
                    ) == as_value(entries[j].1),
                forall|j: int|
                    0 <= j < i ==> carries(as_value((#[trigger] entries[j]).1), entries[j].1),
            decreases entries.len() - i,
        {
            fields.push(
                (
                    self.window_payloads.key_at(i).clone(),
                    value_of(self.window_payloads.value_at(i)),
                ),
            );
            i = i + 1;
        }
        proof {
            use_type_invariant(&self.window_payloads);
            assert(value_fields(fields@) =~= as_fields(entries));
            lemma_firsts(as_fields(entries));
        }
        let payloads = shape_value(Shape::Object(fields));
        proof {
            lemma_object_carried(value_json(payloads)->Object_0, entries);
        }
        match print_value(&payloads) {
            Some(text) => text,
            None => "{}".to_owned(),
        }
    }

    /// The name of the form that payloads have.
    pub fn get_schema(&self) -> (r: String)
        ensures
            r@ == self@.schema,
    {
        self.schema.clone()
    }
}

} // verus!
