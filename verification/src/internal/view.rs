//! The mathematical model of the tree: a node as plain values, with its
//! children as a sequence of such nodes, and the operations on the tree
//! stated as functions from trees to trees.
//!
//! A node is addressed by a path: the indices of the children to descend
//! into, starting at the root. Identifiers are looked up depth first, a node
//! before its children and the children in order; the first match counts.

use vstd::prelude::*;
use crate::event::{EventType, ListenerId};
use crate::rect::Rect;
use crate::style::Style;
use crate::widget::{hints, measures, Widget};

verus! {

/// One registration of a listener on a node.
pub struct ListenerEntry<L> {
    pub event_type: EventType,
    pub id: ListenerId,
    pub callback: L,
}

/// A node of the tree as plain values.
pub struct NodeView<W, L> {
    pub id: Seq<char>,
    pub style: Style,
    pub area: Rect,
    pub content_area: Rect,
    pub widget: Option<W>,
    pub children: Seq<NodeView<W, L>>,
    pub listeners: Seq<ListenerEntry<L>>,
}

/// A widget to draw: where, and with which style.
pub struct DrawView<W> {
    pub widget: W,
    pub area: Rect,
    pub style: Style,
}

/// The index of the first entry of `entries` for `event_type` and `id`, or
/// the length of `entries` where there is none.
pub open spec fn entry_index<L>(
    entries: Seq<ListenerEntry<L>>,
    event_type: EventType,
    id: ListenerId,
) -> int
    decreases entries.len(),
{
    if entries.len() == 0 {
        0
    } else if entries[0].event_type == event_type && entries[0].id == id {
        0
    } else {
        1 + entry_index(entries.drop_first(), event_type, id)
    }
}

/// The table after `entry` was registered: it takes the place of the first
/// entry with its event type and identifier, or comes last where there is
/// none.
pub open spec fn registered<L>(entries: Seq<ListenerEntry<L>>, entry: ListenerEntry<L>) -> Seq<
    ListenerEntry<L>,
> {
    let at = entry_index(entries, entry.event_type, entry.id);
    if 0 <= at < entries.len() {
        entries.update(at, entry)
    } else {
        entries.push(entry)
    }
}

/// The entries that do not carry the identifier `id`, in their order.
pub open spec fn unregistered<L>(entries: Seq<ListenerEntry<L>>, id: ListenerId) -> Seq<
    ListenerEntry<L>,
>
    decreases entries.len(),
{
    if entries.len() == 0 {
        entries
    } else if entries.last().id == id {
        unregistered(entries.drop_last(), id)
    } else {
        unregistered(entries.drop_last(), id).push(entries.last())
    }
}

/// The listeners registered for `event_type`, in the order of registration.
pub open spec fn callbacks_for<L>(entries: Seq<ListenerEntry<L>>, event_type: EventType) -> Seq<L>
    decreases entries.len(),
{
    if entries.len() == 0 {
        Seq::empty()
    } else if entries.last().event_type == event_type {
        callbacks_for(entries.drop_last(), event_type).push(entries.last().callback)
    } else {
        callbacks_for(entries.drop_last(), event_type)
    }
}

/// The identifiers registered for `event_type`, in the order of registration.
pub open spec fn ids_for<L>(entries: Seq<ListenerEntry<L>>, event_type: EventType) -> Seq<
    ListenerId,
>
    decreases entries.len(),
{
    if entries.len() == 0 {
        Seq::empty()
    } else if entries.last().event_type == event_type {
        ids_for(entries.drop_last(), event_type).push(entries.last().id)
    } else {
        ids_for(entries.drop_last(), event_type)
    }
}

/// Whether some entry carries the identifier `id`.
pub open spec fn has_listener<L>(entries: Seq<ListenerEntry<L>>, id: ListenerId) -> bool {
    exists|i: int| 0 <= i < entries.len() && (#[trigger] entries[i]).id == id
}

impl<W, L> NodeView<W, L> {
    /// A new node: no area yet, no children, no listeners.
    pub open spec fn fresh(id: Seq<char>, style: Style, widget: Option<W>) -> NodeView<W, L> {
        NodeView {
            id,
            style,
            area: Rect::spec_zero(),
            content_area: Rect::spec_zero(),
            widget,
            children: Seq::empty(),
            listeners: Seq::empty(),
        }
    }

    /// The node with `child` as its new last child.
    pub open spec fn with_child(self, child: NodeView<W, L>) -> NodeView<W, L> {
        NodeView { children: self.children.push(child), ..self }
    }

    /// The node with `widget` in place of whatever widget it had.
    pub open spec fn with_widget(self, widget: W) -> NodeView<W, L> {
        NodeView { widget: Some(widget), ..self }
    }

    /// The node with `style` in place of its style.
    pub open spec fn with_style(self, style: Style) -> NodeView<W, L> {
        NodeView { style, ..self }
    }

    /// The node without widget, children and listeners.
    pub open spec fn cleared(self) -> NodeView<W, L> {
        NodeView { widget: None, children: Seq::empty(), listeners: Seq::empty(), ..self }
    }

    /// Whether `path` leads to a node of this tree.
    pub open spec fn valid_path(self, path: Seq<int>) -> bool
        decreases path.len(),
    {
        path.len() == 0 || (0 <= path[0] < self.children.len() && self.children[path[0]].valid_path(
            path.drop_first(),
        ))
    }

    /// The node that `path` leads to.
    pub open spec fn node_at(self, path: Seq<int>) -> NodeView<W, L>
        recommends
            self.valid_path(path),
        decreases path.len(),
    {
        if path.len() == 0 {
            self
        } else {
            self.children[path[0]].node_at(path.drop_first())
        }
    }

    /// The tree with `node` in place of the node that `path` leads to.
    pub open spec fn with_node_at(self, path: Seq<int>, node: NodeView<W, L>) -> NodeView<W, L>
        recommends
            self.valid_path(path),
        decreases path.len(),
    {
        if path.len() == 0 {
            node
        } else {
            NodeView {
                children: self.children.update(
                    path[0],
                    self.children[path[0]].with_node_at(path.drop_first(), node),
                ),
                ..self
            }
        }
    }

    /// The path to the first node with the identifier `id`, depth first.
    pub open spec fn path_to(self, id: Seq<char>) -> Option<Seq<int>>
        decreases self, 1nat, 0nat,
    {
        if self.id == id {
            Some(Seq::empty())
        } else {
            Self::path_among(self.children, id, 0)
        }
    }

    /// The path to the first node with the identifier `id` below the
    /// children from `from` on; it starts with the index of the child.
    pub open spec fn path_among(nodes: Seq<NodeView<W, L>>, id: Seq<char>, from: int) -> Option<
        Seq<int>,
    >
        decreases nodes, 0nat, nodes.len() - from,
    {
        if from < 0 || from >= nodes.len() {
            None
        } else {
            match nodes[from].path_to(id) {
                Some(path) => Some(seq![from] + path),
                None => Self::path_among(nodes, id, from + 1),
            }
        }
    }

    /// Whether some node of the tree has the identifier `id`.
    pub open spec fn contains_id(self, id: Seq<char>) -> bool {
        self.path_to(id) is Some
    }

    /// The tree with `child` appended to the first node named `parent_id`;
    /// the tree itself where no node has that name.
    pub open spec fn with_child_under(self, parent_id: Seq<char>, child: NodeView<W, L>) -> NodeView<
        W,
        L,
    > {
        match self.path_to(parent_id) {
            Some(path) => self.with_node_at(path, self.node_at(path).with_child(child)),
            None => self,
        }
    }

    /// The tree with `widget` put into the first node named `id`; the tree
    /// itself where no node has that name.
    pub open spec fn with_widget_in(self, id: Seq<char>, widget: W) -> NodeView<W, L> {
        match self.path_to(id) {
            Some(path) => self.with_node_at(path, self.node_at(path).with_widget(widget)),
            None => self,
        }
    }

    /// The tree with `style` given to the first node named `id`; the tree
    /// itself where no node has that name.
    pub open spec fn with_style_in(self, id: Seq<char>, style: Style) -> NodeView<W, L> {
        match self.path_to(id) {
            Some(path) => self.with_node_at(path, self.node_at(path).with_style(style)),
            None => self,
        }
    }

    /// The index of the first child named `id`, or the number of children
    /// where none has that name.
    pub open spec fn child_index(nodes: Seq<NodeView<W, L>>, id: Seq<char>) -> int
        decreases nodes.len(),
    {
        if nodes.len() == 0 {
            0
        } else if nodes[0].id == id {
            0
        } else {
            1 + Self::child_index(nodes.drop_first(), id)
        }
    }

    /// The node after the removal of `id`: cleared where it has that name
    /// itself, and else without the first of its children that has it.
    pub open spec fn without_child(self, id: Seq<char>) -> NodeView<W, L> {
        if self.id == id {
            self.cleared()
        } else {
            let at = Self::child_index(self.children, id);
            if 0 <= at < self.children.len() {
                NodeView { children: self.children.remove(at), ..self }
            } else {
                self
            }
        }
    }

    /// The path of the node that a pointer at `(x, y)` hits: nothing outside
    /// the node's area; else what the first child that is hit reports; else
    /// the node itself, if it is a container or the point lies in the content
    /// of its widget.
    pub open spec fn hit(self, x: u16, y: u16) -> Option<Seq<int>>
        decreases self, 1nat, 0nat,
    {
        if !self.area.spec_contains(x, y) {
            None
        } else {
            match Self::hit_among(self.children, x, y, 0) {
                Some(path) => Some(path),
                None => if self.widget is None || self.content_area.spec_contains(x, y) {
                    Some(Seq::empty())
                } else {
                    None
                },
            }
        }
    }

    /// What the first child from `from` on that is hit reports; the path
    /// starts with the index of that child.
    pub open spec fn hit_among(nodes: Seq<NodeView<W, L>>, x: u16, y: u16, from: int) -> Option<
        Seq<int>,
    >
        decreases nodes, 0nat, nodes.len() - from,
    {
        if from < 0 || from >= nodes.len() {
            None
        } else {
            match nodes[from].hit(x, y) {
                Some(path) => Some(seq![from] + path),
                None => Self::hit_among(nodes, x, y, from + 1),
            }
        }
    }

    /// The identifier of the node that a pointer at `(x, y)` hits.
    pub open spec fn hit_id(self, x: u16, y: u16) -> Option<Seq<char>> {
        match self.hit(x, y) {
            Some(path) => Some(self.node_at(path).id),
            None => None,
        }
    }

    /// The widgets of the tree with the areas and styles of their nodes, a
    /// node before its children and the children in order.
    pub open spec fn draws(self) -> Seq<DrawView<W>>
        decreases self, 1nat, 0nat,
    {
        let own = match self.widget {
            Some(widget) => seq![DrawView { widget, area: self.area, style: self.style }],
            None => Seq::empty(),
        };
        own + Self::draws_among(self.children, self.children.len() as int)
    }

    /// The draws of the first `count` of `nodes`, in order.
    pub open spec fn draws_among(nodes: Seq<NodeView<W, L>>, count: int) -> Seq<DrawView<W>>
        decreases nodes, 0nat, count,
    {
        if count <= 0 || count > nodes.len() {
            Seq::empty()
        } else {
            Self::draws_among(nodes, count - 1) + nodes[count - 1].draws()
        }
    }

    /// The tree without any listener that carries the identifier `id`.
    pub open spec fn without_listener(self, id: ListenerId) -> NodeView<W, L>
        decreases self, 1nat,
    {
        NodeView {
            listeners: unregistered(self.listeners, id),
            children: Seq::new(
                self.children.len(),
                |i: int| Self::without_listener_in(self.children, id, i),
            ),
            ..self
        }
    }

    /// Child `i` of `nodes` without any listener that carries `id`.
    pub open spec fn without_listener_in(nodes: Seq<NodeView<W, L>>, id: ListenerId, i: int) -> NodeView<
        W,
        L,
    >
        decreases nodes, 0nat,
    {
        if 0 <= i < nodes.len() {
            nodes[i].without_listener(id)
        } else {
            arbitrary()
        }
    }
}

impl<W, L: Clone> NodeView<W, L> {
    /// Whether `after` is `self` with a clone of `callback` registered for
    /// `event_type` under `id` on every node named `target_id` that has no
    /// node of that name above it.
    pub open spec fn listener_added(
        self,
        after: NodeView<W, L>,
        target_id: Seq<char>,
        event_type: EventType,
        id: ListenerId,
        callback: L,
    ) -> bool
        decreases self,
    {
        &&& after.id == self.id
        &&& after.style == self.style
        &&& after.area == self.area
        &&& after.content_area == self.content_area
        &&& after.widget == self.widget
        &&& if self.id == target_id {
            &&& after.children == self.children
            &&& exists|stored: L|
                cloned(callback, stored) && after.listeners == registered(
                    self.listeners,
                    ListenerEntry { event_type, id, callback: stored },
                )
        } else {
            &&& after.listeners == self.listeners
            &&& after.children.len() == self.children.len()
            &&& forall|i: int|
                0 <= i < self.children.len() ==> (#[trigger] self.children[i]).listener_added(
                    after.children[i],
                    target_id,
                    event_type,
                    id,
                    callback,
                )
        }
    }
}

impl<W: Widget, L> NodeView<W, L> {
    /// Whether `content_area` is the content area of a node that was given
    /// `area`: the area itself for a container; for a widget a size that the
    /// widget measures in the area, at the corner of the area and cut down
    /// where it would pass the largest coordinate.
    pub open spec fn content_laid_out(widget: Option<W>, area: Rect, content_area: Rect) -> bool {
        match widget {
            Some(widget) => exists|size: (u16, u16)|
                measures(widget, area, size) && content_area == Rect::spec_new(
                    area.x,
                    area.y,
                    size.0,
                    size.1,
                ),
            None => content_area == area,
        }
    }

    /// Whether `after` is `self` after layout in `area`: the node takes the
    /// whole area, and its children are laid out in the areas that its style
    /// cuts out of the area. Nothing else changes.
    pub open spec fn laid_out(self, after: NodeView<W, L>, area: Rect) -> bool
        decreases self,
    {
        &&& after.id == self.id
        &&& after.style == self.style
        &&& after.widget == self.widget
        &&& after.listeners == self.listeners
        &&& after.area == area
        &&& Self::content_laid_out(self.widget, area, after.content_area)
        &&& after.children.len() == self.children.len()
        &&& forall|i: int|
            0 <= i < self.children.len() ==> (#[trigger] self.children[i]).laid_out(
                after.children[i],
                self.style.spec_children_areas(area, self.children.len())[i],
            )
    }

    /// Whether `after` is `self` with a leaf named `id` that holds `widget`
    /// appended to the first node named `parent_id`. The style of the leaf
    /// is `style`; without one, a style that the widget asks for; without
    /// that, the default style.
    pub open spec fn widget_added(
        self,
        after: NodeView<W, L>,
        parent_id: Seq<char>,
        id: Seq<char>,
        widget: W,
        style: Option<Style>,
    ) -> bool {
        match style {
            Some(style) => after == self.with_child_under(
                parent_id,
                NodeView::fresh(id, style, Some(widget)),
            ),
            None => exists|hint: Option<Style>|
                hints(widget, hint) && after == self.with_child_under(
                    parent_id,
                    NodeView::fresh(
                        id,
                        match hint {
                            Some(style) => style,
                            None => Style::spec_default(),
                        },
                        Some(widget),
                    ),
                ),
        }
    }
}

/// A path that starts with `first` leads where the rest of it leads from
/// that child.
pub proof fn lemma_node_at_child<W, L>(node: NodeView<W, L>, first: int, rest: Seq<int>)
    ensures
        node.node_at(seq![first] + rest) == node.children[first].node_at(rest),
        node.valid_path(seq![first] + rest) <==> 0 <= first < node.children.len()
            && node.children[first].valid_path(rest),
        forall|new: NodeView<W, L>|
            #[trigger] node.with_node_at(seq![first] + rest, new) == (NodeView {
                children: node.children.update(first, node.children[first].with_node_at(rest, new)),
                ..node
            }),
{
    let path = seq![first] + rest;
    assert(path.drop_first() =~= rest);
    assert(path[0] == first);
}

/// Children that do not hold `id` are skipped by the search.
pub proof fn lemma_path_among_skips<W, L>(
    nodes: Seq<NodeView<W, L>>,
    id: Seq<char>,
    from: int,
    to: int,
)
    requires
        0 <= from <= to <= nodes.len(),
        forall|j: int| from <= j < to ==> (#[trigger] nodes[j]).path_to(id) is None,
    ensures
        NodeView::path_among(nodes, id, from) == NodeView::path_among(nodes, id, to),
    decreases to - from,
{
    if from < to {
        assert(nodes[from].path_to(id) is None);
        lemma_path_among_skips(nodes, id, from + 1, to);
    }
}

/// Children that are not hit are skipped by the hit test.
pub proof fn lemma_hit_among_skips<W, L>(
    nodes: Seq<NodeView<W, L>>,
    x: u16,
    y: u16,
    from: int,
    to: int,
)
    requires
        0 <= from <= to <= nodes.len(),
        forall|j: int| from <= j < to ==> (#[trigger] nodes[j]).hit(x, y) is None,
    ensures
        NodeView::hit_among(nodes, x, y, from) == NodeView::hit_among(nodes, x, y, to),
    decreases to - from,
{
    if from < to {
        assert(nodes[from].hit(x, y) is None);
        lemma_hit_among_skips(nodes, x, y, from + 1, to);
    }
}

} // verus!
