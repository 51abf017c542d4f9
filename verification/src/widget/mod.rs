//! The capability a leaf of the tree must have: it can say how large its
//! content is and which style it would like its node to have.

use vstd::prelude::*;
use crate::rect::Rect;
use crate::style::Style;

pub mod text;

pub use text::Text;

verus! {

/// A widget that can be measured. Drawing it is the business of the program
/// that owns the terminal.
pub trait Widget: Send + Sync {
    /// Get the default style hint for the node that contains this widget.
    /// Unless a widget says otherwise it has none.
    fn node_style_hint(&self) -> (hint: Option<Style>)
        default_ensures
            hint is None,
    {
        None
    }

    /// Get the actual content size within the given area, as (width, height).
    /// Unless a widget says otherwise its content fills the area.
    fn content_size(&self, area: Rect) -> (size: (u16, u16))
        default_ensures
            size == (area.width, area.height),
    {
        (area.width, area.height)
    }
}

/// Whether `hint` is a style that `widget` asks for.
pub open spec fn hints<W: Widget>(widget: W, hint: Option<Style>) -> bool {
    call_ensures(W::node_style_hint, (&widget,), hint)
}

/// Whether `size` is a size that `widget` measures in `area`.
pub open spec fn measures<W: Widget>(widget: W, area: Rect, size: (u16, u16)) -> bool {
    call_ensures(W::content_size, (&widget, area), size)
}

} // verus!
