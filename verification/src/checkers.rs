//! The checkerboard that lies behind a color so that its transparency shows.
//!
//! The board is two squares high. Its columns are numbered from the left.

use vstd::prelude::*;

verus! {

/// The gray level of the lighter squares.
pub const LIGHT: u8 = 128;

/// The gray level of the darker squares.
pub const DARK: u8 = 32;

/// The gray levels of the two squares of one column.
#[derive(Clone, Copy, Debug, PartialEq, Eq, Structural)]
pub struct CheckerColumn {
    pub top: u8,
    pub bottom: u8,
}

/// The shades of a column: light over dark in the first column, and the
/// other way round in every second one.
pub open spec fn shades_of(column: int) -> CheckerColumn {
    if column % 2 == 0 {
        CheckerColumn { top: LIGHT, bottom: DARK }
    } else {
        CheckerColumn { top: DARK, bottom: LIGHT }
    }
}

/// Next to each square, and above or below it, lies one of the other shade.
pub proof fn lemma_checkers_alternate(column: int)
    ensures
        shades_of(column).top != shades_of(column).bottom,
        shades_of(column + 1).top == shades_of(column).bottom,
        shades_of(column + 1).bottom == shades_of(column).top,
{
}

/// The shades of the two squares of a column.
pub fn checker_column(column: u32) -> (shades: CheckerColumn)
    ensures
        shades == shades_of(column as int),
{
    if column % 2 == 0 {
        CheckerColumn { top: LIGHT, bottom: DARK }
    } else {
        CheckerColumn { top: DARK, bottom: LIGHT }
    }
}

} // verus!
