//! A text widget whose lines wrap at the width of its area.

use vstd::prelude::*;
use vstd::arithmetic::div_mod::lemma_add_mod_noop;
use crate::rect::Rect;
use crate::style::{FlexDirection, Style};
use crate::widget::Widget;

verus! {

/// The number of terminal columns that `text` takes when it is displayed, as
/// the crate `unicode-width` counts them.
pub uninterp spec fn display_width(text: Seq<char>) -> usize;

/// Calls `unicode_width::UnicodeWidthStr::width` on `line`. The result
/// depends on the characters of `line` alone; the contract gives it its name.
#[verifier::external_body]
fn line_width(line: &str) -> (width: usize)
    ensures
        width == display_width(line@),
{
    unicode_width::UnicodeWidthStr::width(line)
}

/// The index of the first line feed in `text`, or the length of `text` where
/// it holds none.
pub open spec fn line_end(text: Seq<char>) -> int
    decreases text.len(),
{
    if text.len() == 0 || text[0] == '\n' {
        0
    } else {
        1 + line_end(text.drop_first())
    }
}

/// The lines of `text`. A line ends at a line feed; the line feed, and a
/// carriage return directly before it, are not part of the line. What
/// follows the last line feed is a line too, unless it is empty.
pub open spec fn text_lines(text: Seq<char>) -> Seq<Seq<char>>
    decreases text.len(),
{
    if text.len() == 0 {
        Seq::empty()
    } else {
        let end = line_end(text);
        if end < 0 || end >= text.len() {
            seq![text]
        } else {
            let line = text.take(end);
            let line = if line.len() > 0 && line.last() == '\r' {
                line.drop_last()
            } else {
                line
            };
            seq![line] + text_lines(text.skip(end + 1))
        }
    }
}

/// Calls `str::lines` and collects what it yields. The documentation of
/// `lines` says that lines end at `\n` or `\r\n`, that the terminator is not
/// part of a line, that a lone `\r` ends nothing, and that the last line need
/// not be terminated; `text_lines` says the same.
#[verifier::external_body]
fn split_lines(text: &str) -> (lines: Vec<&str>)
    ensures
        lines@.len() == text_lines(text@).len(),
        forall|i: int| 0 <= i < lines@.len() ==> (#[trigger] lines@[i])@ == text_lines(text@)[i],
{
    text.lines().collect()
}

/// The display width of each line of `text`.
pub open spec fn line_widths(text: Seq<char>) -> Seq<usize> {
    Seq::new(text_lines(text).len(), |i: int| display_width(text_lines(text)[i]))
}

/// The number of rows that a line of `width` columns takes when it wraps at
/// `available` columns: at least one.
pub open spec fn rows_for(width: usize, available: u16) -> int
    recommends
        available > 0,
{
    let rows = (width + available - 1) / (available as int);
    if rows < 1 {
        1
    } else {
        rows
    }
}

/// The number of rows that lines of these widths take together.
pub open spec fn total_rows(widths: Seq<usize>, available: u16) -> int
    decreases widths.len(),
{
    if widths.len() == 0 {
        0
    } else {
        total_rows(widths.drop_last(), available) + rows_for(widths.last(), available)
    }
}

/// The largest of the widths, zero for none.
pub open spec fn widest(widths: Seq<usize>) -> int
    decreases widths.len(),
{
    if widths.len() == 0 {
        0
    } else if widest(widths.drop_last()) >= widths.last() {
        widest(widths.drop_last())
    } else {
        widths.last() as int
    }
}

/// The size of a text whose lines have these display widths, wrapped at
/// `available` columns: the widest line, but no more than `available`, and
/// the number of rows, of which a coordinate holds the low sixteen bits.
/// Nothing fits into no columns.
pub open spec fn spec_wrapped_size(widths: Seq<usize>, available: u16) -> (u16, u16) {
    if available == 0 {
        (0u16, 0u16)
    } else {
        (
            if widest(widths) >= available {
                available
            } else {
                widest(widths) as u16
            },
            (total_rows(widths, available) % 0x10000) as u16,
        )
    }
}

/// The size of a text whose lines have these display widths, wrapped at
/// `available` columns.
pub fn wrapped_size(widths: &Vec<usize>, available: u16) -> (size: (u16, u16))
    ensures
        size == spec_wrapped_size(widths@, available),
{
    if available == 0 {
        return (0, 0);
    }
    let mut rows: u32 = 0;
    let mut max_width: usize = 0;
    let mut i: usize = 0;
    while i < widths.len()
        invariant
            i <= widths@.len(),
            available > 0,
            max_width == widest(widths@.take(i as int)),
            rows == total_rows(widths@.take(i as int), available) % 0x10000,
        decreases widths@.len() - i,
    {
        let width = widths[i];
        let full: usize = width / (available as usize);
        assert(width % (available as usize) != 0 ==> full < width) by (nonlinear_arith)
            requires
                available > 0,
                full == width / (available as usize),
        ;
        let line_rows: usize = if width % (available as usize) != 0 {
            full + 1
        } else if full == 0 {
            1
        } else {
            full
        };
        proof {
            let next = widths@.take(i as int + 1);
            assert(next.drop_last() =~= widths@.take(i as int));
            assert(next.last() == width);
            assert(line_rows == rows_for(width, available)) by (nonlinear_arith)
                requires
                    available > 0,
                    width >= 0,
                    full == width / (available as usize),
                    line_rows == if width % (available as usize) != 0 {
                        full + 1
                    } else if full == 0 {
                        1
                    } else {
                        full as int
                    },
                    rows_for(width, available) == if (width + available - 1) / (available as int)
                        < 1 {
                        1
                    } else {
                        (width + available - 1) / (available as int)
                    },
            ;
            lemma_add_mod_noop(
                total_rows(widths@.take(i as int), available),
                line_rows as int,
                0x10000,
            );
        }
        rows = (rows + (line_rows % 0x10000) as u32) % 0x10000;
        if width > max_width {
            max_width = width;
        }
        i += 1;
    }
    assert(widths@.take(i as int) =~= widths@);
    let width: u16 = if max_width >= available as usize {
        available
    } else {
        max_width as u16
    };
    (width, rows as u16)
}

/// A simple text display widget.
pub struct Text {
    content: String,
}

impl Text {
    /// The text that the widget shows.
    pub closed spec fn spec_content(&self) -> Seq<char> {
        self.content@
    }

    pub fn new(content: &str) -> (text: Text)
        ensures
            text.spec_content() == content@,
    {
        Text { content: content.to_owned() }
    }

    pub fn content(&self) -> (content: &str)
        ensures
            content@ == self.spec_content(),
    {
        self.content.as_str()
    }

    pub fn set_content(&mut self, content: &str)
        ensures
            final(self).spec_content() == content@,
    {
        self.content = content.to_owned();
    }
}

impl Text {
    /// The style that a text asks for: a column.
    pub open spec fn spec_style_hint() -> Option<Style> {
        Some(Style { flex_direction: FlexDirection::Column, ..Style::spec_default() })
    }

    /// The size of the text when its lines wrap at the width of `area`.
    pub open spec fn spec_content_size(&self, area: Rect) -> (u16, u16) {
        spec_wrapped_size(line_widths(self.spec_content()), area.width)
    }
}

impl Widget for Text {
    fn node_style_hint(&self) -> (hint: Option<Style>)
        ensures
            hint == Text::spec_style_hint(),
    {
        Some(Style::new().column())
    }

    /// The size of the text when its lines wrap at the width of `area`.
    fn content_size(&self, area: Rect) -> (size: (u16, u16))
        ensures
            size == self.spec_content_size(area),
    {
        let lines = split_lines(self.content.as_str());
        let mut widths: Vec<usize> = Vec::new();
        let mut i: usize = 0;
        while i < lines.len()
            invariant
                i <= lines@.len(),
                lines@.len() == text_lines(self.content@).len(),
                forall|j: int|
                    0 <= j < lines@.len() ==> (#[trigger] lines@[j])@ == text_lines(
                        self.content@,
                    )[j],
                widths@.len() == i,
                forall|j: int| 0 <= j < i ==> widths@[j] == line_widths(self.content@)[j],
            decreases lines@.len() - i,
        {
            widths.push(line_width(lines[i]));
            i += 1;
        }
        assert(widths@ =~= line_widths(self.content@));
        wrapped_size(&widths, area.width)
    }
}

} // verus!
