//! Where things go in the window: the glyphs of the overview in their grid,
//! and the tab that follows or precedes a tab.

use vstd::prelude::*;

verus! {

/// How many glyphs the overview shows in a row.
pub const GLYPHS_PER_ROW: usize = 4;

/// A place in the grid of the overview.
#[derive(Clone, Copy, Debug, PartialEq, Eq, Structural, Hash)]
pub struct GridCell {
    pub column: usize,
    pub row: usize,
}

/// The place of the `k`-th glyph that is shown: the rows are filled one after
/// the other.
pub fn grid_cell(k: usize) -> (r: GridCell)
    ensures
        r.column == k % GLYPHS_PER_ROW,
        r.row == k / GLYPHS_PER_ROW,
{
    GridCell { column: k % GLYPHS_PER_ROW, row: k / GLYPHS_PER_ROW }
}

/// The tab after the tab `current` of `pages` tabs; after the last comes the
/// first.
pub fn next_tab(current: u32, pages: u32) -> (r: u32)
    requires
        pages > 0,
    ensures
        r == (current + 1) % (pages as int),
{
    ((current as u64 + 1) % (pages as u64)) as u32
}

/// The tab before the tab `current` of `pages` tabs; before the first comes
/// the last.
pub fn prev_tab(current: u32, pages: u32) -> (r: u32)
    requires
        pages > 0,
    ensures
        r == (current + pages - 1) % (pages as int),
{
    ((current as u64 + pages as u64 - 1) % (pages as u64)) as u32
}

/// Whether there is a tab to go to: there is more than one.
pub fn can_switch_tab(pages: u32) -> (r: bool)
    ensures
        r == (pages > 1),
{
    pages > 1
}

} // verus!
