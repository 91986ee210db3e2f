//! Placement of the centred pop-ups (help, table of contents, preferences).

use ratatui::layout::{Constraint, Direction, Layout, Rect};
use vstd::prelude::*;

verus! {

/// A rectangle of terminal cells.
#[derive(Clone, Copy, PartialEq, Eq, Structural)]
pub struct Area {
    pub x: u16,
    pub y: u16,
    pub width: u16,
    pub height: u16,
}

/// The first coordinate of `area` along a split: its top (`vertical`) or its left edge.
pub open spec fn start_of(area: Area, vertical: bool) -> int {
    if vertical { area.y as int } else { area.x as int }
}

/// The extent of `area` along a split, its height (`vertical`) or its width, cut at the last
/// coordinate a terminal cell can have.
pub open spec fn extent(area: Area, vertical: bool) -> int {
    let (start, size) = if vertical { (area.y as int, area.height as int) } else { (area.x as int, area.width as int) };
    if start + size <= 65535 { size } else { 65535 - start }
}

/// `size` cells are `percent` per cent of `ext` cells, up to rounding: within one cell.
pub open spec fn about_percent(size: int, ext: int, percent: int) -> bool {
    -100 <= 100 * size - ext * percent <= 100
}

/// Where part `k` of a split starts along the split.
pub open spec fn part_start(s: Seq<u16>, k: int, vertical: bool) -> int {
    if vertical { s[4 * k + 1] as int } else { s[4 * k] as int }
}

/// The size of part `k` of a split along the split.
pub open spec fn part_size(s: Seq<u16>, k: int, vertical: bool) -> int {
    if vertical { s[4 * k + 3] as int } else { s[4 * k + 2] as int }
}

/// Part `k` of a split has the extent of `area` across the split.
pub open spec fn spans_across(s: Seq<u16>, k: int, area: Area, vertical: bool) -> bool {
    if vertical {
        s[4 * k] == area.x && s[4 * k + 2] == area.width
    } else {
        s[4 * k + 1] == area.y && s[4 * k + 3] == area.height
    }
}

/// `s`, twelve numbers `x`, `y`, `width`, `height` for three parts in turn, splits `area`
/// top to bottom (`vertical`) or left to right by the percentages `first`, `second` and
/// `third`: each part spans the area across the split; along it the parts follow one another
/// without gaps from the start of the area and end inside it, and each is its percentage of
/// the area up to rounding.
pub open spec fn split_by_percent(
    s: Seq<u16>,
    area: Area,
    vertical: bool,
    first: u16,
    second: u16,
    third: u16,
) -> bool {
    let ext = extent(area, vertical);
    &&& s.len() == 12
    &&& spans_across(s, 0, area, vertical)
    &&& spans_across(s, 1, area, vertical)
    &&& spans_across(s, 2, area, vertical)
    &&& part_start(s, 0, vertical) == start_of(area, vertical)
    &&& part_start(s, 1, vertical) == part_start(s, 0, vertical) + part_size(s, 0, vertical)
    &&& part_start(s, 2, vertical) == part_start(s, 1, vertical) + part_size(s, 1, vertical)
    &&& part_start(s, 2, vertical) + part_size(s, 2, vertical) <= start_of(area, vertical) + ext
    &&& about_percent(part_size(s, 0, vertical), ext, first as int)
    &&& about_percent(part_size(s, 1, vertical), ext, second as int)
    &&& about_percent(part_size(s, 2, vertical), ext, third as int)
}

/// `ratatui::layout::Layout::split` with three `Constraint::Percentage` parts, in the given
/// direction and with the default `Flex::Start`: `x`, `y`, `width` and `height` of each part
/// in turn. Claimed of every outcome of its solver, for percentages that sum to at most 100:
/// the parts span the area across the split; along it they follow one another from the
/// start of the area (the first spacer is empty and the inner spacers have the spacing,
/// zero, at strengths above that of the percentages, which can all be met together, the
/// last spacer taking the rest); and each part's end points are its cumulative percentage of
/// the area rounded to whole cells, so that each part is its percentage up to one cell.
#[verifier::external_body]
fn split_in_three(area: Area, vertical: bool, first: u16, second: u16, third: u16) -> (r: Vec<u16>)
    requires
        first + second + third <= 100,
    ensures
        split_by_percent(r@, area, vertical, first, second, third),
{
    let rect = Rect { x: area.x, y: area.y, width: area.width, height: area.height };
    let direction = if vertical { Direction::Vertical } else { Direction::Horizontal };
    let parts = [Constraint::Percentage(first), Constraint::Percentage(second), Constraint::Percentage(third)];
    let p = Layout::default().direction(direction).constraints(parts).split(rect);
    p.iter().flat_map(|q| [q.x, q.y, q.width, q.height]).collect()
}

/// `inner` lies inside `outer`.
pub open spec fn inside(inner: Area, outer: Area) -> bool {
    &&& outer.x <= inner.x
    &&& inner.x + inner.width <= outer.x + outer.width
    &&& outer.y <= inner.y
    &&& inner.y + inner.height <= outer.y + outer.height
}

/// `c` is a pop-up of `percent_x` of the width and `percent_y` of the height of `r`, centred
/// in it: along each direction it starts half the rest, `(100 - p) / 2` per cent, after the
/// start of `r` and is `p` per cent long, each up to one cell.
pub open spec fn centred_in(c: Area, r: Area, percent_x: u16, percent_y: u16) -> bool {
    &&& about_percent(c.x - r.x, extent(r, false), ((100 - percent_x) / 2) as int)
    &&& about_percent(c.width as int, extent(r, false), percent_x as int)
    &&& about_percent(c.y - r.y, extent(r, true), ((100 - percent_y) / 2) as int)
    &&& about_percent(c.height as int, extent(r, true), percent_y as int)
}

/// The middle part of `r` after splitting it by `percent_y` of its height and that middle row
/// by `percent_x` of its width, with equal margins on both sides: a pop-up centred in `r`,
/// inside it.
pub fn centered_rect(percent_x: u16, percent_y: u16, r: Area) -> (c: Area)
    requires
        percent_x <= 100,
        percent_y <= 100,
    ensures
        centred_in(c, r, percent_x, percent_y),
        inside(c, r),
{
    let side_y = (100 - percent_y) / 2;
    let rows = split_in_three(r, true, side_y, percent_y, side_y);
    let mid = Area { x: rows[4], y: rows[5], width: rows[6], height: rows[7] };
    let side_x = (100 - percent_x) / 2;
    let cols = split_in_three(mid, false, side_x, percent_x, side_x);
    Area { x: cols[4], y: cols[5], width: cols[6], height: cols[7] }
}

} // verus!
