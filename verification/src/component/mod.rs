//! Components: the building blocks that callers name when they describe an
//! interface. A component says which style the node that holds it should
//! have.

use vstd::prelude::*;
use crate::style::Style;

pub mod column;
pub mod row;
pub mod text;

pub use column::Column;
pub use row::Row;
pub use text::Text;

verus! {

/// A component that can be put into the tree.
pub trait Component: Send + Sync {
    /// Get the style hint for the node that contains this component. Unless
    /// a component says otherwise it has none.
    fn node_style_hint(&self) -> (hint: Option<Style>)
        default_ensures
            hint is None,
    {
        None
    }
}

} // verus!
