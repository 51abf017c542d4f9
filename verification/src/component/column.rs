//! A vertical layout container.

use vstd::prelude::*;
use crate::component::Component;
use crate::style::{FlexDirection, Style};

verus! {

/// A vertical layout container that arranges child components in a column.
///
/// The children are nodes of their own in the tree; the node that holds the
/// column lays them out from top to bottom.
pub struct Column;

impl Column {
    pub fn new() -> (column: Column)
        ensures
            column == Column,
    {
        Column
    }
}

impl Default for Column {
    fn default() -> (column: Column)
        ensures
            column == Column,
    {
        Column::new()
    }
}

impl Component for Column {
    fn node_style_hint(&self) -> (hint: Option<Style>)
        ensures
            hint == Some(Style { flex_direction: FlexDirection::Column, ..Style::spec_default() }),
    {
        Some(Style::new().column())
    }
}

} // verus!
