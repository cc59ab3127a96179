//! The root of the interface: which tab it shows, and how it splits the screen.
use crate::tui::app::AppContext;
use ratatui::layout::{Constraint, Direction as Axis, Layout, Margin, Rect};
use vstd::prelude::*;

verus! {

/// A rectangle of the terminal, in cells.
#[derive(Debug, Clone, Copy, PartialEq, Eq, Structural)]
pub struct Area {
    pub x: u16,
    pub y: u16,
    pub width: u16,
    pub height: u16,
}

/// The direction in which an area is split.
#[derive(Debug, Clone, Copy, PartialEq, Eq, Structural)]
pub enum Direction {
    Horizontal,
    Vertical,
}

/// How large a part of a split area is to be.
#[derive(Debug, Clone, Copy, PartialEq, Eq, Structural)]
pub enum SizeConstraint {
    /// Exactly this many cells.
    Length(u16),
    /// At least this many cells.
    Min(u16),
    /// This fraction of the area.
    Ratio(u32, u32),
}

/// Where an area begins along `direction`.
pub open spec fn start_along(area: Area, direction: Direction) -> int {
    match direction {
        Direction::Horizontal => area.x as int,
        Direction::Vertical => area.y as int,
    }
}

/// How long an area is along `direction`.
pub open spec fn size_along(area: Area, direction: Direction) -> int {
    match direction {
        Direction::Horizontal => area.width as int,
        Direction::Vertical => area.height as int,
    }
}

/// Where a part ends along `direction`: its start plus its size.
pub open spec fn end_along(part: Area, direction: Direction) -> int {
    start_along(part, direction) + size_along(part, direction)
}

/// Where a split area ends along `direction`: its start plus its size, at most the largest
/// `u16`.
pub open spec fn area_end_along(area: Area, direction: Direction) -> int {
    saturating_add_u16(start_along(area, direction), size_along(area, direction)) as int
}

/// `part` covers the whole of `area` across `direction`.
pub open spec fn spans_across(part: Area, area: Area, direction: Direction) -> bool {
    match direction {
        Direction::Horizontal => part.y == area.y && part.height == area.height,
        Direction::Vertical => part.x == area.x && part.width == area.width,
    }
}

/// `parts` tile `area` along `direction`: each spans the area across, the first begins where
/// the area begins, each ends where the next begins, and the last ends where the area ends.
pub open spec fn tiles(area: Area, direction: Direction, parts: Seq<Area>) -> bool {
    &&& forall|i: int| 0 <= i < parts.len() ==> spans_across(#[trigger] parts[i], area, direction)
    &&& parts.len() > 0 ==> start_along(parts[0], direction) == start_along(area, direction)
    &&& forall|i: int|
        0 <= i < parts.len() - 1 ==> end_along(#[trigger] parts[i], direction) == start_along(
            parts[i + 1],
            direction,
        )
    &&& parts.len() > 0 ==> end_along(parts[parts.len() - 1], direction) == area_end_along(
        area,
        direction,
    )
}

/// The total size of the parts along `direction`.
pub open spec fn total_size(parts: Seq<Area>, direction: Direction) -> int
    decreases parts.len(),
{
    if parts.len() == 0 {
        0
    } else {
        total_size(parts.drop_last(), direction) + size_along(parts.last(), direction)
    }
}

/// Parts that tile an area lie inside it, one after the other, and together they are as
/// long as the area.
pub proof fn lemma_tiles_inside(area: Area, direction: Direction, parts: Seq<Area>)
    requires
        tiles(area, direction, parts),
        parts.len() > 0,
    ensures
        forall|i: int|
            0 <= i < parts.len() ==> start_along(area, direction) <= start_along(
                #[trigger] parts[i],
                direction,
            ) && end_along(parts[i], direction) <= area_end_along(area, direction),
        total_size(parts, direction) == area_end_along(area, direction) - start_along(
            area,
            direction,
        ),
{
    let n = parts.len() as int;
    let s = start_along(area, direction);
    // the end of each prefix is the area's start plus the sizes so far
    assert forall|k: int| 1 <= k <= n implies #[trigger] total_size(parts.take(k), direction) == end_along(
        parts[k - 1],
        direction,
    ) - s by {
        lemma_prefix_total(area, direction, parts, k);
    }
    assert(parts.take(n) =~= parts);
    assert forall|i: int| 0 <= i < n implies s <= start_along(#[trigger] parts[i], direction)
        && end_along(parts[i], direction) <= area_end_along(area, direction) by {
        lemma_ends_in_order(area, direction, parts, i);
        lemma_starts_after(area, direction, parts, i);
    }
}

proof fn lemma_prefix_total(area: Area, direction: Direction, parts: Seq<Area>, k: int)
    requires
        tiles(area, direction, parts),
        1 <= k <= parts.len(),
    ensures
        total_size(parts.take(k), direction) == end_along(parts[k - 1], direction) - start_along(
            area,
            direction,
        ),
    decreases k,
{
    assert(parts.take(k).drop_last() =~= parts.take(k - 1));
    assert(parts.take(k).last() == parts[k - 1]);
    assert(total_size(parts.take(k), direction) == total_size(parts.take(k - 1), direction)
        + size_along(parts[k - 1], direction));
    if k == 1 {
        assert(parts.take(0) =~= Seq::<Area>::empty());
        assert(total_size(parts.take(0), direction) == 0);
        assert(start_along(parts[0], direction) == start_along(area, direction));
    } else {
        lemma_prefix_total(area, direction, parts, k - 1);
        assert(end_along(parts[k - 2], direction) == start_along(parts[k - 1], direction));
    }
}

proof fn lemma_starts_after(area: Area, direction: Direction, parts: Seq<Area>, i: int)
    requires
        tiles(area, direction, parts),
        0 <= i < parts.len(),
    ensures
        start_along(area, direction) <= start_along(parts[i], direction),
    decreases i,
{
    if i > 0 {
        lemma_starts_after(area, direction, parts, i - 1);
        assert(end_along(parts[i - 1], direction) == start_along(parts[i], direction));
    }
}

proof fn lemma_ends_in_order(area: Area, direction: Direction, parts: Seq<Area>, i: int)
    requires
        tiles(area, direction, parts),
        0 <= i < parts.len(),
    ensures
        end_along(parts[i], direction) <= area_end_along(area, direction),
    decreases parts.len() - i,
{
    if i < parts.len() - 1 {
        lemma_ends_in_order(area, direction, parts, i + 1);
        assert(end_along(parts[i], direction) == start_along(parts[i + 1], direction));
    }
}

/// How long a split area is along `direction`, up to where it ends.
pub open spec fn length_along(area: Area, direction: Direction) -> int {
    area_end_along(area, direction) - start_along(area, direction)
}

/// The constraint has an exact solution in halves of cells: a length, a minimum, or a ratio
/// with denominator 1 or 2.
pub open spec fn solvable_exactly(constraint: SizeConstraint) -> bool {
    match constraint {
        SizeConstraint::Length(_) => true,
        SizeConstraint::Min(_) => true,
        SizeConstraint::Ratio(_, d) => d == 1 || d == 2,
    }
}

/// The sum of the exact lengths among the constraints.
pub open spec fn fixed_total(constraints: Seq<SizeConstraint>) -> int
    decreases constraints.len(),
{
    if constraints.len() == 0 {
        0
    } else {
        fixed_total(constraints.drop_last()) + match constraints.last() {
            SizeConstraint::Length(l) => l as int,
            _ => 0,
        }
    }
}

/// The constraints are exact lengths and minimums of zero, and the lengths fit in the area:
/// either some constraint is a minimum of zero and takes what the lengths leave, or the
/// lengths fill the area exactly.
pub open spec fn lengths_fit(area: Area, direction: Direction, constraints: Seq<SizeConstraint>) -> bool {
    &&& forall|j: int|
        0 <= j < constraints.len() ==> (#[trigger] constraints[j] is Length || constraints[j]
            == SizeConstraint::Min(0))
    &&& {
        ||| (exists|j: int|
            0 <= j < constraints.len() && #[trigger] constraints[j] == SizeConstraint::Min(0))
            && fixed_total(constraints) <= length_along(area, direction)
        ||| fixed_total(constraints) == length_along(area, direction)
    }
}

/// Splits `area` by ratatui's `Layout::split` with its default margin (none) and its default
/// segment size (the last part takes what is left). For every outcome of the solver the
/// source fixes: one part per constraint, and the parts tile the area, because ratatui adds
/// as required constraints that the first part begins at the area's start, that each part
/// ends where the next begins, and that the last one ends at the area's end, and builds each
/// part with the area's position and size across. A length is a strong constraint and a
/// minimum asks, with medium strength, to be no larger than its minimum; so when some
/// minimum is zero and the lengths fit, or when the lengths fill the area exactly, every
/// optimum gives each length exactly. Two ratios
/// of one half are satisfied exactly, and rounding the middle, a half-cell, away from zero
/// gives the first part the larger half. The constraints are limited to those whose solution
/// is exact in halves of cells, where the solver's arithmetic is exact; how the parts lie in
/// other cases depends on the solver, whose choice among equally good solutions follows the
/// order in which its hash maps are walked, and is not stated.
#[verifier::external_body]
pub(crate) fn split_area(area: Area, direction: Direction, constraints: &Vec<SizeConstraint>) -> (parts: Vec<
    Area,
>)
    requires
        forall|j: int| 0 <= j < constraints@.len() ==> solvable_exactly(#[trigger] constraints@[j]),
    ensures
        parts@.len() == constraints@.len(),
        tiles(area, direction, parts@),
        lengths_fit(area, direction, constraints@) ==> forall|i: int|
            0 <= i < constraints@.len() ==> (#[trigger] constraints@[i] matches SizeConstraint::Length(
                l,
            ) ==> size_along(parts@[i], direction) == l),
        constraints@ == seq![SizeConstraint::Ratio(1, 2), SizeConstraint::Ratio(1, 2)] ==> size_along(
            parts@[0],
            direction,
        ) == (length_along(area, direction) + 1) / 2 && size_along(parts@[1], direction)
            == length_along(area, direction) / 2,
{
    let direction = match direction {
        Direction::Horizontal => Axis::Horizontal,
        Direction::Vertical => Axis::Vertical,
    };
    let constraints = constraints.iter().map(|c| match *c {
        SizeConstraint::Length(h) => Constraint::Length(h),
        SizeConstraint::Min(h) => Constraint::Min(h),
        SizeConstraint::Ratio(n, d) => Constraint::Ratio(n, d),
    });
    let rect = Rect { x: area.x, y: area.y, width: area.width, height: area.height };
    let parts = Layout::default().direction(direction).constraints(constraints.collect::<Vec<_>>()).split(rect);
    parts.iter().map(|r| Area { x: r.x, y: r.y, width: r.width, height: r.height }).collect()
}

/// `a + b`, or the largest `u16` when that does not fit.
pub open spec fn saturating_add_u16(a: int, b: int) -> u16 {
    if a + b > u16::MAX {
        u16::MAX
    } else {
        (a + b) as u16
    }
}

/// The area inside `area` that leaves `vertical` cells at the top and at the bottom and
/// `horizontal` cells at the left and at the right (the doubled margins saturate at the
/// largest `u16`); an empty area at the origin when the margins do not fit.
pub open spec fn inner_area(area: Area, vertical: u16, horizontal: u16) -> Area {
    let across = saturating_add_u16(horizontal as int, horizontal as int);
    let down = saturating_add_u16(vertical as int, vertical as int);
    if area.width < across || area.height < down {
        Area { x: 0, y: 0, width: 0, height: 0 }
    } else {
        Area {
            x: saturating_add_u16(area.x as int, horizontal as int),
            y: saturating_add_u16(area.y as int, vertical as int),
            width: (area.width - across) as u16,
            height: (area.height - down) as u16,
        }
    }
}

/// A margin that fits, on an area that ends before the largest coordinate, moves the
/// corner by the margin and shrinks each side by twice the margin; a margin that does not fit
/// gives the empty area at the origin.
pub proof fn lemma_inner_area(area: Area, vertical: u16, horizontal: u16)
    ensures
        2 * horizontal <= area.width && 2 * vertical <= area.height && area.x + horizontal
            <= u16::MAX && area.y + vertical <= u16::MAX ==> {
            let inner = inner_area(area, vertical, horizontal);
            &&& inner.x == area.x + horizontal
            &&& inner.y == area.y + vertical
            &&& inner.width == area.width - 2 * horizontal
            &&& inner.height == area.height - 2 * vertical
        },
        area.width < 2 * horizontal && 2 * horizontal <= u16::MAX ==> inner_area(
            area,
            vertical,
            horizontal,
        ) == (Area { x: 0, y: 0, width: 0, height: 0 }),
{
}

/// Calls ratatui's `Rect::inner`, which shrinks a rectangle by a margin on each side with
/// saturating arithmetic, or gives the empty rectangle when the margins do not fit.
#[verifier::external_body]
pub(crate) fn shrink_area(area: Area, vertical: u16, horizontal: u16) -> (inner: Area)
    ensures
        inner == inner_area(area, vertical, horizontal),
{
    let rect = Rect { x: area.x, y: area.y, width: area.width, height: area.height };
    let r = rect.inner(&Margin { vertical, horizontal });
    Area { x: r.x, y: r.y, width: r.width, height: r.height }
}

/// The constraint for a part of the given size: a positive size is exact, and zero asks
/// for whatever is left.
pub open spec fn size_constraint(size: u16) -> SizeConstraint {
    if size > 0 {
        SizeConstraint::Length(size)
    } else {
        SizeConstraint::Min(0)
    }
}

/// The constraints for parts of the given sizes.
pub fn size_constraints(sizes: &Vec<u16>) -> (constraints: Vec<SizeConstraint>)
    ensures
        constraints@ == sizes@.map_values(|h: u16| size_constraint(h)),
{
    let mut constraints: Vec<SizeConstraint> = Vec::new();
    for i in 0..sizes.len()
        invariant
            constraints@ == sizes@.take(i as int).map_values(|h: u16| size_constraint(h)),
    {
        let h = sizes[i];
        let c = if h > 0 {
            SizeConstraint::Length(h)
        } else {
            SizeConstraint::Min(0)
        };
        constraints.push(c);
        assert(constraints@ =~= sizes@.take(i + 1).map_values(|h: u16| size_constraint(h)));
    }
    assert(sizes@.take(sizes@.len() as int) =~= sizes@);
    constraints
}

/// The sum of the sizes.
pub open spec fn height_total(heights: Seq<u16>) -> int
    decreases heights.len(),
{
    if heights.len() == 0 {
        0
    } else {
        height_total(heights.drop_last()) + heights.last() as int
    }
}

/// The sizes fit in the area: either some size is zero, to take what the others leave, and
/// the others fit, or the sizes fill the area exactly.
pub open spec fn heights_fit(area: Area, direction: Direction, heights: Seq<u16>) -> bool {
    ||| (exists|j: int| 0 <= j < heights.len() && #[trigger] heights[j] == 0) && height_total(heights)
        <= length_along(area, direction)
    ||| height_total(heights) == length_along(area, direction)
}

proof fn lemma_fixed_total_of_sizes(heights: Seq<u16>)
    ensures
        fixed_total(heights.map_values(|h: u16| size_constraint(h))) == height_total(heights),
    decreases heights.len(),
{
    if heights.len() > 0 {
        assert(heights.map_values(|h: u16| size_constraint(h)).drop_last() =~= heights.drop_last().map_values(
            |h: u16| size_constraint(h),
        ));
        lemma_fixed_total_of_sizes(heights.drop_last());
    }
}

/// When the parts tile the area and each has the size asked for it, they come in the order
/// of the sizes: part `i` begins after the sizes of the parts before it.
pub proof fn lemma_sized_parts_in_order(area: Area, direction: Direction, heights: Seq<u16>, parts: Seq<Area>)
    requires
        tiles(area, direction, parts),
        parts.len() == heights.len(),
        forall|i: int| 0 <= i < parts.len() ==> size_along(#[trigger] parts[i], direction) == heights[i],
    ensures
        forall|i: int|
            0 <= i < parts.len() ==> start_along(#[trigger] parts[i], direction) == start_along(area, direction)
                + height_total(heights.take(i)),
{
    assert forall|i: int| 0 <= i < parts.len() implies start_along(#[trigger] parts[i], direction)
        == start_along(area, direction) + height_total(heights.take(i)) by {
        lemma_start_after_sizes(area, direction, heights, parts, i);
    }
}

proof fn lemma_start_after_sizes(area: Area, direction: Direction, heights: Seq<u16>, parts: Seq<Area>, i: int)
    requires
        tiles(area, direction, parts),
        parts.len() == heights.len(),
        forall|k: int| 0 <= k < parts.len() ==> size_along(#[trigger] parts[k], direction) == heights[k],
        0 <= i < parts.len(),
    ensures
        start_along(parts[i], direction) == start_along(area, direction) + height_total(heights.take(i)),
    decreases i,
{
    if i == 0 {
        assert(heights.take(0) =~= Seq::<u16>::empty());
    } else {
        lemma_start_after_sizes(area, direction, heights, parts, i - 1);
        assert(heights.take(i).drop_last() =~= heights.take(i - 1));
        assert(heights.take(i).last() == heights[i - 1]);
        assert(end_along(parts[i - 1], direction) == start_along(parts[i], direction));
        assert(size_along(parts[i - 1], direction) == heights[i - 1]);
    }
}

/// Splits an area into parts of the given sizes along `direction`, one part per size; a size
/// of zero takes what the others leave. The parts tile the area (see `tiles`), and when the
/// sizes fit (see `heights_fit`), each part of a positive size has that size.
pub fn layout(area: Area, direction: Direction, heights: Vec<u16>) -> (parts: Vec<Area>)
    ensures
        parts@.len() == heights@.len(),
        tiles(area, direction, parts@),
        heights_fit(area, direction, heights@) ==> forall|i: int|
            0 <= i < heights@.len() && #[trigger] heights@[i] > 0 ==> size_along(parts@[i], direction)
                == heights@[i],
{
    let constraints = size_constraints(&heights);
    let ghost cs = constraints@;
    proof {
        lemma_fixed_total_of_sizes(heights@);
        if heights_fit(area, direction, heights@) {
            if exists|j: int| 0 <= j < heights@.len() && #[trigger] heights@[j] == 0 {
                let j = choose|j: int| 0 <= j < heights@.len() && #[trigger] heights@[j] == 0;
                assert(cs[j] == SizeConstraint::Min(0));
            }
            assert forall|k: int| 0 <= k < cs.len() implies (#[trigger] cs[k] is Length || cs[k]
                == SizeConstraint::Min(0)) by {
                assert(cs[k] == size_constraint(heights@[k]));
            }
            assert(lengths_fit(area, direction, cs));
        }
    }
    let parts = split_area(area, direction, &constraints);
    proof {
        if heights_fit(area, direction, heights@) {
            assert forall|i: int| 0 <= i < heights@.len() && #[trigger] heights@[i] > 0 implies size_along(
                parts@[i],
                direction,
            ) == heights@[i] by {
                assert(cs[i] == SizeConstraint::Length(heights@[i]));
            }
        }
    }
    parts
}

/// The tab to draw, with the row to show as selected.
#[derive(Debug, Clone, Copy, PartialEq, Eq, Structural)]
pub enum SelectedTab {
    Recipe(usize),
    Email(usize),
    Traceroute(usize),
    About(usize),
}

/// The root widget, drawn over the context of the application.
pub struct Root<'a> {
    pub context: &'a mut AppContext,
}

impl<'a> Root<'a> {
    pub fn new(context: &'a mut AppContext) -> (root: Self)
        ensures
            *root.context == *old(context),
            *final(context) == *final(root.context),
    {
        Root { context }
    }

    /// The tab to draw. The first three tabs are drawn with the selected row; any other tab
    /// index draws the about tab, with the row that was selected, and goes back to the first
    /// tab and the first row.
    pub fn select_tab(&mut self) -> (tab: SelectedTab)
        ensures
            *final(final(self).context) == *final(old(self).context),
            final(self).context.tab_index < 3,
            old(self).context.tab_index < 3 ==> *final(self).context == *old(self).context,
            old(self).context.tab_index == 0 ==> tab == SelectedTab::Recipe(
                old(self).context.row_index,
            ),
            old(self).context.tab_index == 1 ==> tab == SelectedTab::Email(
                old(self).context.row_index,
            ),
            old(self).context.tab_index == 2 ==> tab == SelectedTab::Traceroute(
                old(self).context.row_index,
            ),
            old(self).context.tab_index >= 3 ==> tab == SelectedTab::About(
                old(self).context.row_index,
            ) && *final(self).context == (AppContext { tab_index: 0, row_index: 0 }),
    {
        let row_index = self.context.row_index;
        match self.context.tab_index {
            0 => SelectedTab::Recipe(row_index),
            1 => SelectedTab::Email(row_index),
            2 => SelectedTab::Traceroute(row_index),
            _ => {
                self.context.row_index = 0;
                self.context.tab_index = 0;
                SelectedTab::About(row_index)
            },
        }
    }
}

} // verus!
