//! The traceroute tab.
use crate::tui::root::{
    inner_area, length_along, shrink_area, size_along, split_area, tiles, Area, Direction,
    SizeConstraint,
};
use vstd::prelude::*;

verus! {

/// The traceroute tab, with the row it shows as selected.
#[derive(Debug)]
pub struct TracerouteTab {
    pub selected_row: usize,
}

impl TracerouteTab {
    pub fn new(selected_row: usize) -> (tab: Self)
        ensures
            tab.selected_row == selected_row,
    {
        Self { selected_row: selected_row }
    }

    /// Where the tab draws its content: inside a margin of one cell at the top and at the
    /// bottom and two cells at the left and at the right.
    pub fn content_area(area: Area) -> (content: Area)
        ensures
            content == inner_area(area, 1, 2),
    {
        shrink_area(area, 1, 2)
    }

    /// The two halves of the content, side by side; the map is drawn in the second one.
    /// They tile the content area, the first on the left; when the width is odd, the first
    /// is the wider by one cell.
    pub fn halves(area: Area) -> (parts: Vec<Area>)
        ensures
            parts@.len() == 2,
            tiles(inner_area(area, 1, 2), Direction::Horizontal, parts@),
            size_along(parts@[0], Direction::Horizontal) == (length_along(
                inner_area(area, 1, 2),
                Direction::Horizontal,
            ) + 1) / 2,
            size_along(parts@[1], Direction::Horizontal) == length_along(
                inner_area(area, 1, 2),
                Direction::Horizontal,
            ) / 2,
    {
        let content = shrink_area(area, 1, 2);
        let constraints = vec![SizeConstraint::Ratio(1, 2), SizeConstraint::Ratio(1, 2)];
        assert(constraints@ =~= seq![SizeConstraint::Ratio(1, 2), SizeConstraint::Ratio(1, 2)]);
        split_area(content, Direction::Horizontal, &constraints)
    }
}

} // verus!
