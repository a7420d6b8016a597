//! What holds of places: how alike they are, and how they are read and published.

use vstd::prelude::*;

use crate::geometry::{chrome_rect, hypr_rect, rect_likeness, rect_object, Rect};
use crate::json::{JsonView, NumberView};
use crate::table::lemma_first_entry;

verus! {

/// How alike two places are, by their four numbers: what the horizontal and the vertical positions
/// differ, together, and what the widths and the heights differ, together.
pub proof fn law_place_likeness(left: Rect, right: Rect)
    ensures
        ({
            let x = left.x - right.x;
            let y = left.y - right.y;
            let width = left.width - right.width;
            let height = left.height - right.height;
            let position = (if x < 0 {
                -x
            } else {
                x
            }) + (if y < 0 {
                -y
            } else {
                y
            });
            let size = (if width < 0 {
                -width
            } else {
                width
            }) + (if height < 0 {
                -height
            } else {
                height
            });
            let likeness = rect_likeness(left, right);
            &&& likeness == 100 <==> position <= 8 && size <= 16
            &&& likeness >= 80 <==> position <= 32 && size <= 64
            &&& likeness >= 60 <==> position <= 96 && size <= 160
            &&& likeness == 100 || likeness == 80 || likeness == 60 || likeness == 0
        }),
{
}

/// Each of the four numbers counts: places that are far apart along one axis, or differ much in one
/// side, are not alike at all, whatever the rest is.
pub proof fn law_far_places(left: Rect, right: Rect)
    requires
        left.x - right.x > 96 || right.x - left.x > 96 || left.y - right.y > 96 || right.y - left.y
            > 96 || left.width - right.width > 160 || right.width - left.width > 160 || left.height
            - right.height > 160 || right.height - left.height > 160,
    ensures
        rect_likeness(left, right) == 0,
{
}

/// Moving both places by the same way, or turning the picture over, changes nothing: the
/// horizontal and the vertical count alike.
pub proof fn law_moved_places(left: Rect, right: Rect, moved_left: Rect, moved_right: Rect)
    requires
        moved_left.x - moved_right.x == left.y - right.y,
        moved_left.y - moved_right.y == left.x - right.x,
        moved_left.width - moved_right.width == left.height - right.height,
        moved_left.height - moved_right.height == left.width - right.width,
    ensures
        rect_likeness(moved_left, moved_right) == rect_likeness(left, right),
{
}

/// The place that Hyprland reports: `at` gives the horizontal and the vertical position, `size` the
/// width and the height, all four integers.
pub proof fn law_reported_place(value: JsonView, rect: Rect)
    ensures
        hypr_rect(value) == Some(rect) <==> (value.field("at"@) matches Some(JsonView::Array(at))
            && value.field("size"@) matches Some(JsonView::Array(size)) && at.len() >= 2
            && size.len() >= 2 && at[0] == JsonView::Number(NumberView::Integer(rect.x as int))
            && at[1] == JsonView::Number(NumberView::Integer(rect.y as int)) && size[0]
            == JsonView::Number(NumberView::Integer(rect.width as int)) && size[1]
            == JsonView::Number(NumberView::Integer(rect.height as int))),
{
}

/// The place that Chrome reports: `left` and `top` give the position, `width` and `height` the
/// size, all four integers.
pub proof fn law_chrome_place(value: JsonView, rect: Rect)
    ensures
        chrome_rect(value) == Some(rect) <==> value.field("left"@) == Some(
            JsonView::Number(NumberView::Integer(rect.x as int)),
        ) && value.field("top"@) == Some(JsonView::Number(NumberView::Integer(rect.y as int)))
            && value.field("width"@) == Some(
            JsonView::Number(NumberView::Integer(rect.width as int)),
        ) && value.field("height"@) == Some(
            JsonView::Number(NumberView::Integer(rect.height as int)),
        ),
{
}

/// A published place has its four numbers under their names.
pub proof fn law_published_place(rect: Rect)
    ensures
        rect_object(rect).field("x"@) == Some(JsonView::Number(NumberView::Integer(rect.x as int))),
        rect_object(rect).field("y"@) == Some(JsonView::Number(NumberView::Integer(rect.y as int))),
        rect_object(rect).field("width"@) == Some(
            JsonView::Number(NumberView::Integer(rect.width as int)),
        ),
        rect_object(rect).field("height"@) == Some(
            JsonView::Number(NumberView::Integer(rect.height as int)),
        ),
        rect_object(rect)->Object_0.len() == 4,
{
    reveal_strlit("x");
    reveal_strlit("y");
    reveal_strlit("width");
    reveal_strlit("height");
    assert("x"@[0] == 'x' && "y"@[0] == 'y');
    assert("x"@.len() == 1 && "y"@.len() == 1 && "width"@.len() == 5 && "height"@.len() == 6);
    let fields = rect_object(rect)->Object_0;
    lemma_first_entry(fields, "x"@, JsonView::Null, 0);
    lemma_first_entry(fields, "y"@, JsonView::Null, 1);
    lemma_first_entry(fields, "width"@, JsonView::Null, 2);
    lemma_first_entry(fields, "height"@, JsonView::Null, 3);
}

} // verus!
