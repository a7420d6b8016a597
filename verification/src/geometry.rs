//! The places of windows on the screen.

use vstd::prelude::*;

use crate::json::{
    integer_json, item_views, json_integer, json_object, push_field, Json, JsonView,
};
use crate::ratio::Ratio;

verus! {

/// A window's place and size.
#[derive(Clone, Copy, Debug, Default, PartialEq)]
pub struct Rect {
    pub x: i64,
    pub y: i64,
    pub width: i64,
    pub height: i64,
}

/// The distance between two numbers.
pub open spec fn distance(left: int, right: int) -> int {
    if left >= right {
        left - right
    } else {
        right - left
    }
}

/// How far apart two windows are placed, along both axes together.
pub open spec fn position_delta(left: Rect, right: Rect) -> int {
    distance(left.x as int, right.x as int) + distance(left.y as int, right.y as int)
}

/// How much two windows differ in size, along both axes together.
pub open spec fn size_delta(left: Rect, right: Rect) -> int {
    distance(left.width as int, right.width as int) + distance(
        left.height as int,
        right.height as int,
    )
}

/// How alike two places are, in hundredths.
pub open spec fn rect_likeness(left: Rect, right: Rect) -> int {
    let position = position_delta(left, right);
    let size = size_delta(left, right);
    if position <= 8 && size <= 16 {
        100
    } else if position <= 32 && size <= 64 {
        80
    } else if position <= 96 && size <= 160 {
        60
    } else {
        0
    }
}

/// The distance between two numbers.
fn distance_between(left: i64, right: i64) -> (r: i128)
    ensures
        r == distance(left as int, right as int),
{
    if left >= right {
        left as i128 - right as i128
    } else {
        right as i128 - left as i128
    }
}

/// How alike two places are.
pub fn rect_similarity(left: &Rect, right: &Rect) -> (r: Ratio)
    ensures
        r.numerator == rect_likeness(*left, *right),
        r.denominator == 100,
{
    let position: i128 = distance_between(left.x, right.x) + distance_between(left.y, right.y);
    let size: i128 = distance_between(left.width, right.width) + distance_between(
        left.height,
        right.height,
    );
    if position <= 8 && size <= 16 {
        Ratio::hundredths(100)
    } else if position <= 32 && size <= 64 {
        Ratio::hundredths(80)
    } else if position <= 96 && size <= 160 {
        Ratio::hundredths(60)
    } else {
        Ratio::hundredths(0)
    }
}

/// Likeness of places does not depend on which of the two comes first, and a place is wholly like
/// itself.
pub proof fn law_rect_likeness(left: Rect, right: Rect)
    ensures
        rect_likeness(left, right) == rect_likeness(right, left),
        rect_likeness(left, left) == 100,
{
}

/// The integer at position `i` of a JSON array.
pub open spec fn integer_at(items: Seq<JsonView>, i: int) -> Option<i64> {
    if 0 <= i < items.len() {
        items[i].integer()
    } else {
        None
    }
}

/// The integer at position `i` of a JSON array.
fn item_i64(items: &Vec<Json>, i: usize) -> (r: Option<i64>)
    ensures
        r == integer_at(item_views(items@), i as int),
{
    if i < items.len() {
        items[i].as_i64()
    } else {
        None
    }
}

/// The items of the array in the field `key`.
pub open spec fn items_field(value: JsonView, key: Seq<char>) -> Option<Seq<JsonView>> {
    match value.field(key) {
        Some(inner) => inner.items(),
        None => None,
    }
}

/// The place with the given numbers, where all four are there.
pub open spec fn rect_of(
    x: Option<i64>,
    y: Option<i64>,
    width: Option<i64>,
    height: Option<i64>,
) -> Option<Rect> {
    match (x, y, width, height) {
        (Some(x), Some(y), Some(width), Some(height)) => Some(Rect { x, y, width, height }),
        _ => None,
    }
}

/// The place with the given numbers, where all four are there.
fn rect_from_parts(
    x: Option<i64>,
    y: Option<i64>,
    width: Option<i64>,
    height: Option<i64>,
) -> (r: Option<Rect>)
    ensures
        r == rect_of(x, y, width, height),
{
    match (x, y, width, height) {
        (Some(x), Some(y), Some(width), Some(height)) => Some(Rect { x, y, width, height }),
        _ => None,
    }
}

/// The place that Hyprland reports of a window: `at` is where it stands, `size` how large it is.
pub open spec fn hypr_rect(value: JsonView) -> Option<Rect> {
    match (items_field(value, "at"@), items_field(value, "size"@)) {
        (Some(at), Some(size)) => rect_of(
            integer_at(at, 0),
            integer_at(at, 1),
            integer_at(size, 0),
            integer_at(size, 1),
        ),
        _ => None,
    }
}

/// The items of the array in the field `key`.
fn get_array<'a>(value: &'a Json, key: &str) -> (r: Option<&'a Vec<Json>>)
    ensures
        match r {
            Some(items) => items_field(value@, key@) == Some(item_views(items@)),
            None => items_field(value@, key@) is None,
        },
{
    match value.get(key) {
        Some(inner) => inner.as_array(),
        None => None,
    }
}

/// The place that Hyprland reports of a window.
pub fn rect_from_hypr_client(value: &Json) -> (r: Option<Rect>)
    ensures
        r == hypr_rect(value@),
{
    match (get_array(value, "at"), get_array(value, "size")) {
        (Some(at), Some(size)) => rect_from_parts(
            item_i64(at, 0),
            item_i64(at, 1),
            item_i64(size, 0),
            item_i64(size, 1),
        ),
        _ => None,
    }
}

/// The place that Chrome reports of a window.
pub open spec fn chrome_rect(value: JsonView) -> Option<Rect> {
    rect_of(
        value.integer_field("left"@),
        value.integer_field("top"@),
        value.integer_field("width"@),
        value.integer_field("height"@),
    )
}

/// The place that Chrome reports of a window.
pub fn rect_from_chrome_window(value: &Json) -> (r: Option<Rect>)
    ensures
        r == chrome_rect(value@),
{
    rect_from_parts(
        value.get_i64("left"),
        value.get_i64("top"),
        value.get_i64("width"),
        value.get_i64("height"),
    )
}

/// A place as a JSON object.
pub open spec fn rect_object(rect: Rect) -> JsonView {
    JsonView::Object(
        seq![
            ("x"@, integer_json(rect.x as int)),
            ("y"@, integer_json(rect.y as int)),
            ("width"@, integer_json(rect.width as int)),
            ("height"@, integer_json(rect.height as int)),
        ],
    )
}

/// A place as a JSON object.
pub fn rect_json(rect: &Rect) -> (r: Json)
    ensures
        r@ == rect_object(*rect),
{
    let mut fields: Vec<(String, Json)> = Vec::new();
    push_field(&mut fields, "x", json_integer(rect.x));
    push_field(&mut fields, "y", json_integer(rect.y));
    push_field(&mut fields, "width", json_integer(rect.width));
    push_field(&mut fields, "height", json_integer(rect.height));
    let r = json_object(fields);
    assert(r@->Object_0 =~= rect_object(*rect)->Object_0);
    r
}

} // verus!
