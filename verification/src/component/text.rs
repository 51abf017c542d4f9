//! A text component with a style of its own.

use vstd::prelude::*;
use crate::component::Component;
use crate::style::Style;

verus! {

/// A simple text display component.
pub struct Text {
    content: String,
    style: Style,
}

impl Text {
    /// The text that the component shows.
    pub closed spec fn spec_content(&self) -> Seq<char> {
        self.content@
    }

    /// The style of the component.
    pub closed spec fn spec_style(&self) -> Style {
        self.style
    }

    pub fn new(content: &str) -> (text: Text)
        ensures
            text.spec_content() == content@,
            text.spec_style() == Style::spec_default(),
    {
        Text { content: content.to_owned(), style: Style::new() }
    }

    pub fn style(self, style: Style) -> (text: Text)
        ensures
            text.spec_content() == self.spec_content(),
            text.spec_style() == style,
    {
        Text { content: self.content, style }
    }

    pub fn get_style(&self) -> (style: &Style)
        ensures
            *style == self.spec_style(),
    {
        &self.style
    }

    pub fn content(&self) -> (content: &str)
        ensures
            content@ == self.spec_content(),
    {
        self.content.as_str()
    }

    pub fn set_content(&mut self, content: &str)
        ensures
            final(self).spec_content() == content@,
            final(self).spec_style() == old(self).spec_style(),
    {
        self.content = content.to_owned();
    }
}

impl Component for Text {
}

} // verus!
