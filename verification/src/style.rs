//! Styles and the box layout engine.
//!
//! A container's style decides how the area it was given is divided among its
//! children: the area is first shrunk by the border and the padding, the gaps
//! are taken off the flex axis, and what is left is divided evenly. Sizes
//! saturate at zero and positions at the largest coordinate, so every style
//! lays out every area. Cells left over by the integer division stay unused.

use vstd::prelude::*;
use crate::rect::{Rect, MAX_COORD};

verus! {

/// Layout mode: how the node occupies space.
#[derive(Debug, Clone, Copy, PartialEq, Eq, Default, Structural)]
pub enum Display {
    /// Fills the space its parent hands out.
    #[default]
    Tiled,
    /// Sits at a fixed position and may overlap its siblings.
    Floating { x: u16, y: u16 },
}

/// Flex direction: the axis along which children are arranged.
#[derive(Debug, Clone, Copy, PartialEq, Eq, Default, Structural)]
pub enum FlexDirection {
    /// Left to right.
    Row,
    /// Top to bottom.
    #[default]
    Column,
}

/// A width or a height.
#[derive(Debug, Clone, Copy, PartialEq, Eq, Default, Structural)]
pub enum Dimension {
    /// Whatever space is available.
    #[default]
    Auto,
    /// A number of terminal cells.
    Fixed(u16),
    /// A percentage of the available space.
    Percent(u16),
}

/// Spacing on the four sides of a box (padding or margin).
#[derive(Debug, Clone, Copy, PartialEq, Eq, Default, Structural)]
pub struct RectOffset {
    pub top: u16,
    pub right: u16,
    pub bottom: u16,
    pub left: u16,
}

/// How a border is drawn.
#[derive(Debug, Clone, Copy, PartialEq, Eq, Default, Structural)]
pub enum BorderKind {
    #[default]
    Plain,
    Rounded,
    Double,
    Thick,
}

/// The border of a box: whether it is shown, and how it is drawn.
#[derive(Debug, Clone, Copy, PartialEq, Eq, Default, Structural)]
pub struct Border {
    pub shown: bool,
    pub kind: BorderKind,
}

/// Style properties for layout and appearance.
#[derive(Debug, Clone, Copy, PartialEq, Eq, Structural)]
pub struct Style {
    pub display: Display,
    pub flex_direction: FlexDirection,
    pub width: Dimension,
    pub height: Dimension,
    pub gap: u16,
    pub padding: RectOffset,
    pub margin: RectOffset,
    pub border: Border,
}

/// `v` held within the range of a coordinate.
pub open spec fn clamp_coord(v: int) -> u16 {
    if v < 0 {
        0
    } else if v > MAX_COORD {
        MAX_COORD
    } else {
        v as u16
    }
}

impl RectOffset {
    /// The same spacing on every side.
    pub open spec fn spec_all(value: u16) -> RectOffset {
        RectOffset { top: value, right: value, bottom: value, left: value }
    }

    /// The offset with rows and columns exchanged.
    pub open spec fn transposed(self) -> RectOffset {
        RectOffset { top: self.left, right: self.bottom, bottom: self.right, left: self.top }
    }

    pub fn all(value: u16) -> (r: RectOffset)
        ensures
            r == RectOffset::spec_all(value),
    {
        RectOffset { top: value, right: value, bottom: value, left: value }
    }

    pub fn new(top: u16, right: u16, bottom: u16, left: u16) -> (r: RectOffset)
        ensures
            r == (RectOffset { top, right, bottom, left }),
    {
        RectOffset { top, right, bottom, left }
    }
}

impl Border {
    /// No border.
    pub open spec fn spec_hidden() -> Border {
        Border { shown: false, kind: BorderKind::Plain }
    }

    /// A border that is shown, drawn as `kind` says.
    pub fn shown(kind: BorderKind) -> (r: Border)
        ensures
            r == (Border { shown: true, kind }),
    {
        Border { shown: true, kind }
    }

    /// No border.
    pub fn hidden() -> (r: Border)
        ensures
            r == Border::spec_hidden(),
    {
        Border { shown: false, kind: BorderKind::Plain }
    }
}

impl Dimension {
    /// The size a tiled box takes out of `available` cells. A percentage is
    /// rounded down and, beyond what a coordinate holds, wraps around.
    pub open spec fn resolve(self, available: u16) -> u16 {
        match self {
            Dimension::Auto => available,
            Dimension::Fixed(cells) => cells,
            Dimension::Percent(percent) => ((available * percent / 100) % 0x10000) as u16,
        }
    }

    /// The size a floating box takes beside a parent of `parent` cells: its
    /// fixed size, or else half the parent.
    pub open spec fn resolve_floating(self, parent: u16) -> u16 {
        match self {
            Dimension::Fixed(cells) => cells,
            _ => parent / 2,
        }
    }

    fn tiled_size(self, available: u16) -> (size: u16)
        ensures
            size == self.resolve(available),
    {
        match self {
            Dimension::Auto => available,
            Dimension::Fixed(cells) => cells,
            Dimension::Percent(percent) => {
                assert(available * percent <= 0xffff * 0xffff) by (nonlinear_arith)
                    requires
                        0 <= available <= 0xffff,
                        0 <= percent <= 0xffff,
                ;
                let scaled: u32 = available as u32 * percent as u32 / 100;
                (scaled % 0x10000) as u16
            },
        }
    }

    fn floating_size(self, parent: u16) -> (size: u16)
        ensures
            size == self.resolve_floating(parent),
    {
        match self {
            Dimension::Fixed(cells) => cells,
            _ => parent / 2,
        }
    }
}

/// `base + add - sub`, held within the range of a coordinate.
fn offset_coord(base: u16, add: u128, sub: u16) -> (r: u16)
    requires
        add <= 0xffff_ffff_ffff_ffff_ffff_ffff,
    ensures
        r == clamp_coord(base + add - sub),
{
    let sum: u128 = base as u128 + add;
    if sum <= sub as u128 {
        0
    } else if sum - sub as u128 > MAX_COORD as u128 {
        MAX_COORD
    } else {
        (sum - sub as u128) as u16
    }
}

/// `size - a - b - c`, or zero where that is negative.
fn shrink_size(size: u16, a: u16, b: u16, c: u16) -> (r: u16)
    ensures
        r == clamp_coord(size - a - b - c),
{
    let taken: u32 = a as u32 + b as u32 + c as u32;
    if taken >= size as u32 {
        0
    } else {
        (size as u32 - taken) as u16
    }
}

impl Style {
    /// The style every node starts with: a tiled column without gap, padding,
    /// margin or border.
    pub open spec fn spec_default() -> Style {
        Style {
            display: Display::Tiled,
            flex_direction: FlexDirection::Column,
            width: Dimension::Auto,
            height: Dimension::Auto,
            gap: 0,
            padding: RectOffset::spec_all(0),
            margin: RectOffset::spec_all(0),
            border: Border::spec_hidden(),
        }
    }

    /// The number of cells the border takes on each side.
    pub open spec fn border_cells(self) -> int {
        if self.border.shown {
            1
        } else {
            0
        }
    }

    /// The style with rows and columns exchanged: the other flex direction,
    /// width for height, and the spacing of each side moved to the side that
    /// takes its place.
    pub open spec fn transposed(self) -> Style {
        Style {
            display: match self.display {
                Display::Tiled => Display::Tiled,
                Display::Floating { x, y } => Display::Floating { x: y, y: x },
            },
            flex_direction: match self.flex_direction {
                FlexDirection::Row => FlexDirection::Column,
                FlexDirection::Column => FlexDirection::Row,
            },
            width: self.height,
            height: self.width,
            gap: self.gap,
            padding: self.padding.transposed(),
            margin: self.margin.transposed(),
            border: self.border,
        }
    }

    /// The content area of a box that was given `area`: `area` without one
    /// cell on every side where the border is shown, and without the padding.
    pub open spec fn spec_shrink(self, area: Rect) -> Rect {
        let b = self.border_cells();
        Rect::spec_new(
            clamp_coord(area.x + b + self.padding.left),
            clamp_coord(area.y + b + self.padding.top),
            clamp_coord(area.width - 2 * b - self.padding.left - self.padding.right),
            clamp_coord(area.height - 2 * b - self.padding.top - self.padding.bottom),
        )
    }

    /// The extent of the content area along the flex axis.
    pub open spec fn flex_extent(self, area: Rect) -> u16 {
        match self.flex_direction {
            FlexDirection::Row => self.spec_shrink(area).width,
            FlexDirection::Column => self.spec_shrink(area).height,
        }
    }

    /// The cells that the gaps between `n` children take.
    pub open spec fn total_gap(self, n: nat) -> int {
        self.gap * (n - 1)
    }

    /// The size of each of `n` children along the flex axis, before borders
    /// are shared: what the gaps leave of the content area, divided by `n`
    /// and rounded down.
    pub open spec fn child_size(self, area: Rect, n: nat) -> int
        recommends
            n >= 1,
    {
        let extent = self.flex_extent(area);
        let left = if extent > self.total_gap(n) {
            extent - self.total_gap(n)
        } else {
            0
        };
        left / (n as int)
    }

    /// One cell for every child but the first where the border is shown:
    /// such a child starts one cell early and is one cell longer, so that it
    /// shares a boundary line with the child before it.
    pub open spec fn shared_cells(self, i: nat) -> int {
        if self.border.shown && i > 0 {
            1
        } else {
            0
        }
    }

    /// Where child `i` of `n` starts along the flex axis, counted from the
    /// start of the content area.
    pub open spec fn child_offset(self, area: Rect, n: nat, i: nat) -> int
        recommends
            i < n,
    {
        i * (self.child_size(area, n) + self.gap) - self.shared_cells(i)
    }

    /// The area of child `i` of `n` in a box that was given `area`.
    pub open spec fn spec_child_area(self, area: Rect, n: nat, i: nat) -> Rect
        recommends
            i < n,
    {
        let content = self.spec_shrink(area);
        let start = self.child_offset(area, n, i);
        let size = clamp_coord(self.child_size(area, n) + self.shared_cells(i));
        match self.flex_direction {
            FlexDirection::Row => Rect::spec_new(
                clamp_coord(content.x + start),
                content.y,
                size,
                content.height,
            ),
            FlexDirection::Column => Rect::spec_new(
                content.x,
                clamp_coord(content.y + start),
                content.width,
                size,
            ),
        }
    }

    /// The areas of `n` children, in child order.
    pub open spec fn spec_children_areas(self, area: Rect, n: nat) -> Seq<Rect> {
        Seq::new(n, |i: int| self.spec_child_area(area, n, i as nat))
    }

    /// The area a node of this style takes beside or inside `parent`. A tiled
    /// node takes the parent without its margin, cut to its width and height;
    /// a floating node sits at its own position.
    pub open spec fn spec_area(self, parent: Rect) -> Rect {
        match self.display {
            Display::Tiled => Rect::spec_new(
                clamp_coord(parent.x + self.margin.left),
                clamp_coord(parent.y + self.margin.top),
                self.width.resolve(
                    clamp_coord(parent.width - self.margin.left - self.margin.right),
                ),
                self.height.resolve(
                    clamp_coord(parent.height - self.margin.top - self.margin.bottom),
                ),
            ),
            Display::Floating { x, y } => Rect::spec_new(
                x,
                y,
                self.width.resolve_floating(parent.width),
                self.height.resolve_floating(parent.height),
            ),
        }
    }

    /// Calculate the actual area for this node.
    pub fn calculate_area(&self, parent_area: Rect) -> (area: Rect)
        ensures
            area == self.spec_area(parent_area),
            area.in_bounds(),
    {
        match self.display {
            Display::Tiled => {
                let x = offset_coord(parent_area.x, self.margin.left as u128, 0);
                let y = offset_coord(parent_area.y, self.margin.top as u128, 0);
                let w = shrink_size(parent_area.width, self.margin.left, self.margin.right, 0);
                let h = shrink_size(parent_area.height, self.margin.top, self.margin.bottom, 0);
                Rect::new(x, y, self.width.tiled_size(w), self.height.tiled_size(h))
            },
            Display::Floating { x, y } => {
                let w = self.width.floating_size(parent_area.width);
                let h = self.height.floating_size(parent_area.height);
                Rect::new(x, y, w, h)
            },
        }
    }

    /// The content area of a box that was given `area`.
    pub fn shrink(&self, area: Rect) -> (content: Rect)
        ensures
            content == self.spec_shrink(area),
            content.in_bounds(),
    {
        let b: u16 = if self.border.shown { 1 } else { 0 };
        let x = offset_coord(area.x, b as u128 + self.padding.left as u128, 0);
        let y = offset_coord(area.y, b as u128 + self.padding.top as u128, 0);
        let w = shrink_size(area.width, 2 * b, self.padding.left, self.padding.right);
        let h = shrink_size(area.height, 2 * b, self.padding.top, self.padding.bottom);
        Rect::new(x, y, w, h)
    }

    /// The size of each of `n` children along the flex axis.
    fn measure_child(&self, content: Rect, n: usize) -> (size: u16)
        requires
            n >= 1,
        ensures
            forall|area: Rect| content == self.spec_shrink(area) ==> size == self.child_size(area, n as nat),
    {
        let extent: u16 = match self.flex_direction {
            FlexDirection::Row => content.width,
            FlexDirection::Column => content.height,
        };
        assert(self.gap * (n - 1) <= 0xffff * 0xffff_ffff_ffff_ffff) by (nonlinear_arith)
            requires
                0 <= self.gap <= 0xffff,
                0 <= n - 1 <= 0xffff_ffff_ffff_ffff,
        ;
        let gaps: u128 = self.gap as u128 * (n as u128 - 1);
        let left: u128 = if extent as u128 > gaps {
            extent as u128 - gaps
        } else {
            0
        };
        (left / n as u128) as u16
    }

    /// The area of child `i`, given the content area and the child size.
    fn place_child(&self, content: Rect, size: u16, i: usize) -> (child: Rect)
        requires
            size <= 0x7fff || i == 0,
        ensures
            forall|area: Rect, n: nat|
                content == self.spec_shrink(area) && size == self.child_size(area, n)
                    ==> child == #[trigger] self.spec_child_area(area, n, i as nat),
            child.in_bounds(),
    {
        let shared: u16 = if self.border.shown && i > 0 { 1 } else { 0 };
        let step: u128 = size as u128 + self.gap as u128;
        assert(i * step <= 0xffff_ffff_ffff_ffff * 0x1fffe) by (nonlinear_arith)
            requires
                0 <= i <= 0xffff_ffff_ffff_ffff,
                0 <= step <= 0x1fffe,
        ;
        let offset: u128 = i as u128 * step;
        let length: u16 = size + shared;
        match self.flex_direction {
            FlexDirection::Row => Rect::new(
                offset_coord(content.x, offset, shared),
                content.y,
                length,
                content.height,
            ),
            FlexDirection::Column => Rect::new(
                content.x,
                offset_coord(content.y, offset, shared),
                content.width,
                length,
            ),
        }
    }

    /// Calculate child areas based on flex direction.
    pub fn calculate_children_areas(&self, parent_area: Rect, n_children: usize) -> (areas: Vec<Rect>)
        ensures
            areas@ == self.spec_children_areas(parent_area, n_children as nat),
            areas@.len() == n_children,
            forall|i: int| 0 <= i < areas@.len() ==> (#[trigger] areas@[i]).in_bounds(),
    {
        let mut areas: Vec<Rect> = Vec::new();
        if n_children == 0 {
            assert(areas@ =~= self.spec_children_areas(parent_area, 0));
            return areas;
        }
        let content = self.shrink(parent_area);
        let size = self.measure_child(content, n_children);
        let mut i: usize = 0;
        while i < n_children
            invariant
                i <= n_children,
                n_children >= 1,
                content == self.spec_shrink(parent_area),
                size == self.child_size(parent_area, n_children as nat),
                areas@.len() == i,
                forall|j: int|
                    0 <= j < i ==> areas@[j] == self.spec_child_area(
                        parent_area,
                        n_children as nat,
                        j as nat,
                    ),
                forall|j: int| 0 <= j < i ==> (#[trigger] areas@[j]).in_bounds(),
            decreases n_children - i,
        {
            proof {
                if i > 0 {
                    lemma_child_size_halves(*self, parent_area, n_children as nat);
                }
            }
            let child = self.place_child(content, size, i);
            areas.push(child);
            i += 1;
        }
        assert(areas@ =~= self.spec_children_areas(parent_area, n_children as nat));
        areas
    }
}

/// The children of a box stay inside its content area: along the flex axis
/// no child starts before the content area or ends after it, and across it
/// every child spans the content area exactly. This holds where the gaps fit
/// into the content area and, where borders are shared, where a child and a
/// gap together take at least one cell.
pub proof fn lemma_children_within_content(style: Style, area: Rect, n: nat, i: nat)
    requires
        i < n,
        style.total_gap(n) <= style.flex_extent(area),
        !style.border.shown || n == 1 || style.child_size(area, n) + style.gap >= 1,
    ensures
        ({
            let content = style.spec_shrink(area);
            let child = style.spec_child_area(area, n, i);
            match style.flex_direction {
                FlexDirection::Row => {
                    &&& content.x <= child.x
                    &&& child.x + child.width <= content.x + content.width
                    &&& child.y == content.y
                    &&& child.height == content.height
                },
                FlexDirection::Column => {
                    &&& content.y <= child.y
                    &&& child.y + child.height <= content.y + content.height
                    &&& child.x == content.x
                    &&& child.width == content.width
                },
            }
        }),
{
    let size = style.child_size(area, n);
    let gaps = style.total_gap(n);
    let extent = style.flex_extent(area);
    let shared = style.shared_cells(i);
    let start = style.child_offset(area, n, i);
    lemma_children_span(extent as int, gaps, style.gap as int, n as int, i as int, size);
    assert(start + size + shared <= extent);
    assert(start >= 0) by {
        if shared == 1 {
            assert(i * (size + style.gap) >= 1) by (nonlinear_arith)
                requires
                    i >= 1,
                    size + style.gap >= 1,
            ;
        }
    }
}

/// The arithmetic behind [`lemma_children_within_content`]: `n` children of
/// `size` cells with `n - 1` gaps between them fit into `extent` cells, and
/// so does every prefix that ends with child `i`.
proof fn lemma_children_span(extent: int, gaps: int, gap: int, n: int, i: int, size: int)
    requires
        0 <= i < n,
        0 <= gap,
        gaps == gap * (n - 1),
        gaps <= extent,
        size == (extent - gaps) / n,
    ensures
        0 <= size,
        0 <= i * (size + gap),
        i * (size + gap) + size <= extent,
{
    let left = extent - gaps;
    assert(0 <= size && size * n <= left) by (nonlinear_arith)
        requires
            size == left / n,
            0 <= left,
            0 < n,
    ;
    assert(0 <= i * (size + gap) <= (n - 1) * (size + gap)) by (nonlinear_arith)
        requires
            0 <= i <= n - 1,
            0 <= size + gap,
    ;
    assert((n - 1) * (size + gap) + size == size * n + gap * (n - 1)) by (nonlinear_arith);
}

/// Row and column layout are duals: laying out the transposed area with the
/// transposed style gives the transposed areas, child by child.
pub proof fn lemma_layout_transposes(style: Style, area: Rect, n: nat, i: nat)
    ensures
        style.transposed().spec_child_area(area.transposed(), n, i) == style.spec_child_area(
            area,
            n,
            i,
        ).transposed(),
        style.transposed().spec_shrink(area.transposed()) == style.spec_shrink(area).transposed(),
{
}

/// The same law for the whole sequence of child areas.
pub proof fn lemma_children_areas_transpose(style: Style, area: Rect, n: nat)
    ensures
        style.transposed().spec_children_areas(area.transposed(), n) == Seq::new(
            n,
            |i: int| style.spec_children_areas(area, n)[i].transposed(),
        ),
{
    assert forall|i: int| 0 <= i < n implies style.transposed().spec_children_areas(
        area.transposed(),
        n,
    )[i] == style.spec_children_areas(area, n)[i].transposed() by {
        lemma_layout_transposes(style, area, n, i as nat);
    }
    assert(style.transposed().spec_children_areas(area.transposed(), n) =~= Seq::new(
        n,
        |i: int| style.spec_children_areas(area, n)[i].transposed(),
    ));
}

/// Exchanging only the flex direction of the style and the width and height
/// of the area transposes the child areas too, where the padding is the same
/// seen from either axis and the area lies on the diagonal.
pub proof fn lemma_flex_direction_duality(style: Style, area: Rect, n: nat, i: nat)
    requires
        style.padding.top == style.padding.left,
        style.padding.bottom == style.padding.right,
        area.x == area.y,
    ensures
        ({
            let other = Style { flex_direction: style.transposed().flex_direction, ..style };
            let turned = Rect { width: area.height, height: area.width, ..area };
            other.spec_child_area(turned, n, i) == style.spec_child_area(area, n, i).transposed()
        }),
{
    let other = Style { flex_direction: style.transposed().flex_direction, ..style };
    lemma_layout_transposes(style, area, n, i);
    assert(other.spec_shrink(area.transposed()) == style.transposed().spec_shrink(
        area.transposed(),
    ));
}

/// Two or more children get at most half the largest coordinate each.
proof fn lemma_child_size_halves(style: Style, area: Rect, n: nat)
    requires
        n >= 2,
    ensures
        0 <= style.child_size(area, n) <= 0x7fff,
{
    let extent = style.flex_extent(area);
    let left: int = if extent > style.total_gap(n) {
        extent - style.total_gap(n)
    } else {
        0
    };
    assert(style.total_gap(n) >= 0) by (nonlinear_arith)
        requires
            style.total_gap(n) == style.gap * (n - 1),
            style.gap >= 0,
            n >= 2,
    ;
    assert(0 <= left / (n as int) <= 0x7fff) by (nonlinear_arith)
        requires
            0 <= left <= 0xffff,
            n >= 2,
    ;
}

impl Default for Style {
    fn default() -> (style: Style)
        ensures
            style == Style::spec_default(),
    {
        Style {
            display: Display::Tiled,
            flex_direction: FlexDirection::Column,
            width: Dimension::Auto,
            height: Dimension::Auto,
            gap: 0,
            padding: RectOffset::all(0),
            margin: RectOffset::all(0),
            border: Border::hidden(),
        }
    }
}

impl Style {
    pub fn new() -> (style: Style)
        ensures
            style == Style::spec_default(),
    {
        Style {
            display: Display::Tiled,
            flex_direction: FlexDirection::Column,
            width: Dimension::Auto,
            height: Dimension::Auto,
            gap: 0,
            padding: RectOffset::all(0),
            margin: RectOffset::all(0),
            border: Border::hidden(),
        }
    }

    pub fn tiled(self) -> (style: Style)
        ensures
            style == (Style { display: Display::Tiled, ..self }),
    {
        Style { display: Display::Tiled, ..self }
    }

    pub fn floating(self, x: u16, y: u16) -> (style: Style)
        ensures
            style == (Style { display: Display::Floating { x, y }, ..self }),
    {
        Style { display: Display::Floating { x, y }, ..self }
    }

    pub fn row(self) -> (style: Style)
        ensures
            style == (Style { flex_direction: FlexDirection::Row, ..self }),
    {
        Style { flex_direction: FlexDirection::Row, ..self }
    }

    pub fn column(self) -> (style: Style)
        ensures
            style == (Style { flex_direction: FlexDirection::Column, ..self }),
    {
        Style { flex_direction: FlexDirection::Column, ..self }
    }

    pub fn width(self, width: Dimension) -> (style: Style)
        ensures
            style == (Style { width, ..self }),
    {
        Style { width, ..self }
    }

    pub fn height(self, height: Dimension) -> (style: Style)
        ensures
            style == (Style { height, ..self }),
    {
        Style { height, ..self }
    }

    pub fn fixed_size(self, width: u16, height: u16) -> (style: Style)
        ensures
            style == (Style {
                width: Dimension::Fixed(width),
                height: Dimension::Fixed(height),
                ..self
            }),
    {
        Style { width: Dimension::Fixed(width), height: Dimension::Fixed(height), ..self }
    }

    pub fn percent_size(self, width: u16, height: u16) -> (style: Style)
        ensures
            style == (Style {
                width: Dimension::Percent(width),
                height: Dimension::Percent(height),
                ..self
            }),
    {
        Style { width: Dimension::Percent(width), height: Dimension::Percent(height), ..self }
    }

    pub fn gap(self, gap: u16) -> (style: Style)
        ensures
            style == (Style { gap, ..self }),
    {
        Style { gap, ..self }
    }

    pub fn padding(self, padding: RectOffset) -> (style: Style)
        ensures
            style == (Style { padding, ..self }),
    {
        Style { padding, ..self }
    }

    pub fn margin(self, margin: RectOffset) -> (style: Style)
        ensures
            style == (Style { margin, ..self }),
    {
        Style { margin, ..self }
    }

    pub fn padding_all(self, value: u16) -> (style: Style)
        ensures
            style == (Style { padding: RectOffset::spec_all(value), ..self }),
    {
        Style { padding: RectOffset::all(value), ..self }
    }

    pub fn margin_all(self, value: u16) -> (style: Style)
        ensures
            style == (Style { margin: RectOffset::spec_all(value), ..self }),
    {
        Style { margin: RectOffset::all(value), ..self }
    }

    pub fn border(self, border: Border) -> (style: Style)
        ensures
            style == (Style { border, ..self }),
    {
        Style { border, ..self }
    }
}

} // verus!
