//! Column declarations of a text table.

use vstd::prelude::*;
use crate::graphemes::grapheme_clusters;

verus! {

/// How a column's width is computed from the remaining width budget.
///
/// `Fill` grows to the column name's width plus one, capped by the
/// remaining width; `Length` is a fixed width; `Percentage` takes a share
/// of the total table width; the `Max` variants cap the name-derived width
/// by a length or by a share of the total width. Every variant is finally
/// capped by the remaining budget.
#[derive(Clone, Copy, Debug, PartialEq, Eq, Structural)]
pub enum TextColumnConstraint {
    Fill,
    Length(u16),
    Percentage(u16),
    MaxLength(u16),
    MaxPercentage(u16),
}

/// A declared column: display name plus width constraint.
#[derive(Clone, Debug)]
pub struct TextColumn {
    pub name: String,
    pub width_constraint: TextColumnConstraint,
}

impl TextColumn {
    /// A column with the given name that fills available width.
    pub fn new(name: String) -> (r: TextColumn)
        ensures
            r.name@ == name@,
            r.width_constraint == TextColumnConstraint::Fill,
    {
        TextColumn { name, width_constraint: TextColumnConstraint::Fill }
    }

    /// A column with the given name and an explicit width constraint.
    pub fn new_with_constraint(name: String, width_constraint: TextColumnConstraint) -> (r:
        TextColumn)
        ensures
            r.name@ == name@,
            r.width_constraint == width_constraint,
    {
        TextColumn { name, width_constraint }
    }
}

/// The width a column's name asks for: its grapheme count plus one cell of
/// padding, capped at the widest possible terminal cell count.
pub open spec fn desired_width(name: Seq<char>) -> int {
    if grapheme_clusters(name) + 1 <= u16::MAX as int {
        grapheme_clusters(name) as int + 1
    } else {
        u16::MAX as int
    }
}

} // verus!
