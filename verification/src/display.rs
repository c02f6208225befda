//! The LED-matrix row pins owned by the toggle handler, modeled by their
//! logic levels.

use vstd::prelude::*;

verus! {

/// The logic level of each of the five LED-matrix row pins. The pins are
/// exclusively owned by the toggle handler task, so no lock guards them.
#[derive(Clone, Copy, PartialEq, Eq, Structural, Debug)]
pub struct DisplayRows {
    pub row1: bool,
    pub row2: bool,
    pub row3: bool,
    pub row4: bool,
    pub row5: bool,
}

/// The row set with every logic level inverted.
pub open spec fn toggled(r: DisplayRows) -> DisplayRows {
    DisplayRows {
        row1: !r.row1,
        row2: !r.row2,
        row3: !r.row3,
        row4: !r.row4,
        row5: !r.row5,
    }
}

/// The toggle handler: inverts the logic level of every row pin.
pub fn command_toggle_display(rows: &mut DisplayRows)
    ensures
        *final(rows) == toggled(*old(rows)),
{
    rows.row1 = !rows.row1;
    rows.row2 = !rows.row2;
    rows.row3 = !rows.row3;
    rows.row4 = !rows.row4;
    rows.row5 = !rows.row5;
}

/// Law: toggling the display twice returns every row to its original state;
/// inversion is self-inverse.
pub proof fn lemma_toggle_self_inverse(r: DisplayRows)
    ensures
        toggled(toggled(r)) == r,
{
}

} // verus!
