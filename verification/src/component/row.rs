//! A horizontal layout container.

use vstd::prelude::*;
use crate::component::Component;
use crate::style::{FlexDirection, Style};

verus! {

/// A horizontal layout container that arranges child components in a row.
///
/// The children are nodes of their own in the tree; the node that holds the
/// row lays them out from left to right.
pub struct Row;

impl Row {
    pub fn new() -> (row: Row)
        ensures
            row == Row,
    {
        Row
    }
}

impl Default for Row {
    fn default() -> (row: Row)
        ensures
            row == Row,
    {
        Row::new()
    }
}

impl Component for Row {
    fn node_style_hint(&self) -> (hint: Option<Style>)
        ensures
            hint == Some(Style { flex_direction: FlexDirection::Row, ..Style::spec_default() }),
    {
        Some(Style::new().row())
    }
}

} // verus!
