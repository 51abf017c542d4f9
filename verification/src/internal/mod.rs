//! The tree of nodes.
//!
//! Nodes form a hierarchy much like a document tree. A node is either a
//! container, which arranges its children, or a leaf that holds a widget.
//! Identifiers are expected to be unique among the nodes of a tree; where
//! they are not, every lookup takes the first match, depth first.
//!
//! The tree neither draws nor calls listeners. [`Node::render`] says what is
//! to be drawn, in order, and [`Node::trigger_event`] which listeners are to
//! be called; the program that owns the terminal does both.

pub mod laws;
pub mod render;
pub mod view;

pub use render::RenderLoop;
pub use view::{DrawView, ListenerEntry, NodeView};

use vstd::prelude::*;
use crate::event::{EventContext, EventContextView, EventType, ListenerId};
use crate::internal::laws::{
    lemma_containers_keep_tables, lemma_layout_keeps_tables, lemma_listener_added_keeps_tables,
    lemma_removal_keeps_tables, lemma_styles_keep_tables, lemma_widgets_keep_tables,
    lemma_without_listener_keeps_tables, tables_distinct,
};
use crate::internal::view::{
    callbacks_for, entry_index, lemma_hit_among_skips, lemma_node_at_child,
    lemma_path_among_skips, registered, unregistered,
};
use crate::rect::Rect;
use crate::style::Style;
use crate::widget::{hints, measures, Widget};

verus! {

/// Compares two strings with `==` of `str`, which holds exactly when both
/// have the same characters.
#[verifier::external_body]
fn same_text(a: &str, b: &str) -> (same: bool)
    ensures
        same == (a@ == b@),
{
    a == b
}

/// A node of the tree.
pub struct Node<W, L> {
    pub id: String,
    pub style: Style,
    /// The area that layout gave to the node.
    pub area: Rect,
    /// The part of the area that the content takes, for hit testing.
    pub content_area: Rect,
    pub widget: Option<W>,
    pub children: Vec<Node<W, L>>,
    /// The listeners on this node, in the order of registration. The
    /// functions of this crate keep the table free of doubles: no two entries
    /// for the same event type carry the same identifier.
    pub listeners: Vec<ListenerEntry<L>>,
}

/// A widget to draw: where, and with which style.
pub struct Draw<'a, W> {
    pub widget: &'a W,
    pub area: Rect,
    pub style: Style,
}

/// A listener to call, and the context to call it with.
pub struct Invocation<'a, L> {
    pub listener: &'a L,
    pub context: EventContext,
}

impl<'a, W> View for Draw<'a, W> {
    type V = DrawView<W>;

    open spec fn view(&self) -> DrawView<W> {
        DrawView { widget: *self.widget, area: self.area, style: self.style }
    }
}

/// The draws of `list` as plain values.
pub open spec fn draw_views<'a, W>(list: Seq<Draw<'a, W>>) -> Seq<DrawView<W>> {
    Seq::new(list.len(), |i: int| list[i]@)
}

/// Whether `calls` are calls of `listeners`, one each and in that order, each
/// with a context that says what `ctx` says.
pub open spec fn invokes<'a, L>(
    calls: Seq<Invocation<'a, L>>,
    listeners: Seq<L>,
    ctx: EventContextView,
) -> bool {
    &&& calls.len() == listeners.len()
    &&& forall|i: int|
        0 <= i < calls.len() ==> *(#[trigger] calls[i]).listener == listeners[i]
            && calls[i].context@ == ctx
}

/// A change to one node.
enum Edit<W, L> {
    AddChild(Node<W, L>),
    SetWidget(W),
    SetStyle(Style),
}

impl<W, L> Edit<W, L> {
    /// The node after the change.
    spec fn applied(self, node: NodeView<W, L>) -> NodeView<W, L> {
        match self {
            Edit::AddChild(child) => node.with_child(child@),
            Edit::SetWidget(widget) => node.with_widget(widget),
            Edit::SetStyle(style) => node.with_style(style),
        }
    }
}

impl<W, L> View for Node<W, L> {
    type V = NodeView<W, L>;

    open spec fn view(&self) -> NodeView<W, L>
        decreases self, 1nat,
    {
        NodeView {
            id: self.id@,
            style: self.style,
            area: self.area,
            content_area: self.content_area,
            widget: self.widget,
            children: Seq::new(self.children@.len(), |i: int| Self::view_in(self.children@, i)),
            listeners: self.listeners@,
        }
    }
}

impl<W, L> Node<W, L> {
    /// The view of child `i` of `nodes`.
    pub open spec fn view_in(nodes: Seq<Node<W, L>>, i: int) -> NodeView<W, L>
        decreases nodes, 0nat,
    {
        if 0 <= i < nodes.len() {
            nodes[i].view()
        } else {
            arbitrary()
        }
    }

    /// A container named `id` with the default style: a column.
    pub fn new(id: String) -> (node: Node<W, L>)
        ensures
            node@ == NodeView::<W, L>::fresh(id@, Style::spec_default(), None),
            tables_distinct(node@),
    {
        let node = Node {
            id,
            style: Style::new().column(),
            area: Rect::zero(),
            content_area: Rect::zero(),
            widget: None,
            children: Vec::new(),
            listeners: Vec::new(),
        };
        assert(node@.children =~= Seq::empty());
        node
    }

    /// A node without children and listeners that has not been laid out.
    fn fresh(id: String, style: Style, widget: Option<W>) -> (node: Node<W, L>)
        ensures
            node@ == NodeView::<W, L>::fresh(id@, style, widget),
            tables_distinct(node@),
    {
        let node = Node {
            id,
            style,
            area: Rect::zero(),
            content_area: Rect::zero(),
            widget,
            children: Vec::new(),
            listeners: Vec::new(),
        };
        assert(node@.children =~= Seq::empty());
        node
    }

    /// The first node named `id`, depth first.
    pub fn find_child(&self, id: &str) -> (found: Option<&Node<W, L>>)
        ensures
            match self@.path_to(id@) {
                Some(path) => found is Some && found.unwrap()@ == self@.node_at(path),
                None => found is None,
            },
        decreases self,
    {
        if same_text(self.id.as_str(), id) {
            return Some(self);
        }
        let mut i: usize = 0;
        while i < self.children.len()
            invariant
                i <= self.children@.len(),
                self.id@ != id@,
                forall|j: int| 0 <= j < i ==> (#[trigger] self.children@[j])@.path_to(id@) is None,
            decreases self.children@.len() - i,
        {
            let found = self.children[i].find_child(id);
            if found.is_some() {
                proof {
                    let rest = self.children@[i as int]@.path_to(id@).unwrap();
                    lemma_path_among_skips(self@.children, id@, 0, i as int);
                    lemma_node_at_child(self@, i as int, rest);
                }
                return found;
            }
            i += 1;
        }
        proof {
            lemma_path_among_skips(self@.children, id@, 0, self.children@.len() as int);
        }
        None
    }

    /// Applies `edit` to the first node named `id`, depth first, and hands
    /// it back where no node has that name.
    fn edit_first(&mut self, id: &str, edit: Edit<W, L>) -> (unused: Option<Edit<W, L>>)
        ensures
            match old(self)@.path_to(id@) {
                Some(path) => {
                    &&& unused is None
                    &&& final(self)@ == old(self)@.with_node_at(
                        path,
                        edit.applied(old(self)@.node_at(path)),
                    )
                },
                None => unused == Some(edit) && final(self)@ == old(self)@,
            },
        decreases *old(self),
    {
        if same_text(self.id.as_str(), id) {
            match edit {
                Edit::AddChild(child) => {
                    self.children.push(child);
                    assert(self@.children =~= old(self)@.children.push(child@));
                },
                Edit::SetWidget(widget) => {
                    self.widget = Some(widget);
                    assert(self@.children =~= old(self)@.children);
                },
                Edit::SetStyle(style) => {
                    self.style = style;
                    assert(self@.children =~= old(self)@.children);
                },
            }
            return None;
        }
        let count = self.children.len();
        let mut pending = edit;
        let mut i: usize = 0;
        while i < count
            invariant
                i <= count,
                count == old(self).children@.len(),
                self.children@.len() == count,
                self.id == old(self).id,
                self.style == old(self).style,
                self.area == old(self).area,
                self.content_area == old(self).content_area,
                self.widget == old(self).widget,
                self.listeners == old(self).listeners,
                self.id@ != id@,
                pending == edit,
                forall|j: int| 0 <= j < i ==> (#[trigger] self.children@[j])@ == old(self).children@[j]@,
                forall|j: int| i <= j < count ==> self.children@[j] == old(self).children@[j],
                forall|j: int|
                    0 <= j < i ==> (#[trigger] old(self).children@[j])@.path_to(id@) is None,
            decreases count - i,
        {
            let child = &mut self.children[i];
            let unused = child.edit_first(id, pending);
            match unused {
                None => {
                    proof {
                        let before = old(self)@;
                        let rest = before.children[i as int].path_to(id@).unwrap();
                        lemma_path_among_skips(before.children, id@, 0, i as int);
                        lemma_node_at_child(before, i as int, rest);
                        assert(self@.children =~= before.children.update(
                            i as int,
                            before.children[i as int].with_node_at(
                                rest,
                                edit.applied(before.children[i as int].node_at(rest)),
                            ),
                        ));
                    }
                    return None;
                },
                Some(back) => {
                    pending = back;
                },
            }
            i += 1;
        }
        proof {
            lemma_path_among_skips(old(self)@.children, id@, 0, count as int);
            assert(self@.children =~= old(self)@.children);
        }
        Some(pending)
    }

    /// Adds a leaf named `id` that holds `widget` as the last child of the
    /// first node named `parent_id`. Without such a node nothing happens.
    pub fn add_widget_box(&mut self, parent_id: &str, id: String, widget: W, style: Style)
        ensures
            final(self)@ == old(self)@.with_child_under(
                parent_id@,
                NodeView::fresh(id@, style, Some(widget)),
            ),
            tables_distinct(old(self)@) ==> tables_distinct(final(self)@),
    {
        let child = Node::fresh(id, style, Some(widget));
        proof {
            if tables_distinct(self@) {
                lemma_containers_keep_tables(self@, parent_id@, child@);
            }
        }
        let _ = self.edit_first(parent_id, Edit::AddChild(child));
    }

    /// Adds a container named `id` as the last child of the first node named
    /// `parent_id`. Without such a node nothing happens.
    pub fn add_container(&mut self, parent_id: &str, id: String, style: Style)
        ensures
            final(self)@ == old(self)@.with_child_under(
                parent_id@,
                NodeView::fresh(id@, style, None),
            ),
            tables_distinct(old(self)@) ==> tables_distinct(final(self)@),
    {
        let child = Node::fresh(id, style, None);
        proof {
            if tables_distinct(self@) {
                lemma_containers_keep_tables(self@, parent_id@, child@);
            }
        }
        let _ = self.edit_first(parent_id, Edit::AddChild(child));
    }

    /// Puts `widget` into the first node named `id`. Without such a node
    /// nothing happens.
    pub fn update_widget_box(&mut self, id: &str, widget: W)
        ensures
            final(self)@ == old(self)@.with_widget_in(id@, widget),
            tables_distinct(old(self)@) ==> tables_distinct(final(self)@),
    {
        proof {
            if tables_distinct(self@) {
                lemma_widgets_keep_tables(self@, id@, widget);
            }
        }
        let _ = self.edit_first(id, Edit::SetWidget(widget));
    }

    /// Gives `style` to the first node named `id`. Without such a node
    /// nothing happens.
    pub fn update_style(&mut self, id: &str, style: Style)
        ensures
            final(self)@ == old(self)@.with_style_in(id@, style),
            tables_distinct(old(self)@) ==> tables_distinct(final(self)@),
    {
        proof {
            if tables_distinct(self@) {
                lemma_styles_keep_tables(self@, id@, style);
            }
        }
        let _ = self.edit_first(id, Edit::SetStyle(style));
    }

    /// Removes `id`. Called on the node of that name it clears the node: its
    /// widget, children and listeners go, the node stays. Called on another
    /// node it removes the first child of that name, with all below it;
    /// nodes further down are not searched.
    pub fn remove_child(&mut self, id: &str)
        ensures
            final(self)@ == old(self)@.without_child(id@),
            tables_distinct(old(self)@) ==> tables_distinct(final(self)@),
    {
        proof {
            if tables_distinct(self@) {
                lemma_removal_keeps_tables(self@, id@);
            }
        }
        if same_text(self.id.as_str(), id) {
            self.widget = None;
            self.children.clear();
            self.listeners.clear();
            assert(self@.children =~= Seq::empty());
            assert(self.listeners@ =~= Seq::empty());
            return ;
        }
        let mut i: usize = 0;
        while i < self.children.len()
            invariant
                i <= self.children@.len(),
                *self == *old(self),
                self.id@ != id@,
                forall|j: int| 0 <= j < i ==> (#[trigger] self.children@[j]).id@ != id@,
            decreases self.children@.len() - i,
        {
            if same_text(self.children[i].id.as_str(), id) {
                proof {
                    assert forall|j: int| 0 <= j <= i implies (#[trigger] self@.children[j]).id
                        == self.children@[j].id@ by {
                        assert(self.children@[j]@.id == self.children@[j].id@);
                    }
                    lemma_child_index(self@.children, id@, i as int);
                }
                let _ = self.children.remove(i);
                assert(self@.children =~= old(self)@.children.remove(i as int));
                return ;
            }
            i += 1;
        }
        proof {
            assert forall|j: int| 0 <= j < self.children@.len() implies (
            #[trigger] self@.children[j]).id == self.children@[j].id@ by {
                assert(self.children@[j]@.id == self.children@[j].id@);
            }
            lemma_child_index(self@.children, id@, self.children@.len() as int);
        }
    }

    /// The identifier of the node that a pointer at `(x, y)` hits: the
    /// deepest node under the pointer, children before their parent.
    pub fn find_widget_at(&self, x: u16, y: u16) -> (hit: Option<String>)
        ensures
            match self@.hit_id(x, y) {
                Some(id) => hit is Some && hit.unwrap()@ == id,
                None => hit is None,
            },
            !self.area.spec_contains(x, y) ==> hit is None,
        decreases self,
    {
        if !self.area.contains(x, y) {
            return None;
        }
        let mut i: usize = 0;
        while i < self.children.len()
            invariant
                i <= self.children@.len(),
                self.area.spec_contains(x, y),
                forall|j: int| 0 <= j < i ==> (#[trigger] self.children@[j])@.hit(x, y) is None,
            decreases self.children@.len() - i,
        {
            let hit = self.children[i].find_widget_at(x, y);
            if hit.is_some() {
                proof {
                    let rest = self.children@[i as int]@.hit(x, y).unwrap();
                    lemma_hit_among_skips(self@.children, x, y, 0, i as int);
                    lemma_node_at_child(self@, i as int, rest);
                }
                return hit;
            }
            i += 1;
        }
        proof {
            lemma_hit_among_skips(self@.children, x, y, 0, self.children@.len() as int);
        }
        if self.widget.is_none() || self.content_area.contains(x, y) {
            Some(self.id.clone())
        } else {
            None
        }
    }

    /// The listeners to call for an event of type `event_type` on this node:
    /// every listener registered for that type, in the order of
    /// registration, each with its own copy of `ctx`.
    pub fn trigger_event(&self, event_type: &EventType, ctx: EventContext) -> (calls: Vec<
        Invocation<'_, L>,
    >)
        ensures
            invokes(calls@, callbacks_for(self@.listeners, *event_type), ctx@),
    {
        let mut calls: Vec<Invocation<'_, L>> = Vec::new();
        let mut i: usize = 0;
        while i < self.listeners.len()
            invariant
                i <= self.listeners@.len(),
                invokes(calls@, callbacks_for(self.listeners@.take(i as int), *event_type), ctx@),
            decreases self.listeners@.len() - i,
        {
            proof {
                assert(self.listeners@.take(i as int + 1).drop_last() =~= self.listeners@.take(
                    i as int,
                ));
            }
            if self.listeners[i].event_type == *event_type {
                calls.push(Invocation { listener: &self.listeners[i].callback, context: ctx.duplicate() });
            }
            i += 1;
        }
        assert(self.listeners@.take(i as int) =~= self.listeners@);
        calls
    }

    /// Removes every listener with the identifier `listener_id`, on this
    /// node and on every node below it.
    pub fn remove_event_listener(&mut self, listener_id: ListenerId)
        ensures
            final(self)@ == old(self)@.without_listener(listener_id),
            tables_distinct(old(self)@) ==> tables_distinct(final(self)@),
        decreases *old(self),
    {
        proof {
            if tables_distinct(self@) {
                lemma_without_listener_keeps_tables(self@, listener_id);
            }
        }
        let mut kept: usize = 0;
        while kept < self.listeners.len()
            invariant
                kept <= self.listeners@.len(),
                self.id == old(self).id,
                self.style == old(self).style,
                self.area == old(self).area,
                self.content_area == old(self).content_area,
                self.widget == old(self).widget,
                self.children == old(self).children,
                unregistered(self.listeners@, listener_id) == unregistered(
                    old(self).listeners@,
                    listener_id,
                ),
                forall|j: int| 0 <= j < kept ==> (#[trigger] self.listeners@[j]).id != listener_id,
            decreases self.listeners@.len() - kept,
        {
            if self.listeners[kept].id == listener_id {
                proof {
                    lemma_unregistered_remove(self.listeners@, listener_id, kept as int);
                }
                let _ = self.listeners.remove(kept);
            } else {
                kept += 1;
            }
        }
        proof {
            lemma_unregistered_none(self.listeners@, listener_id);
        }
        let count = self.children.len();
        let mut i: usize = 0;
        while i < count
            invariant
                i <= count,
                count == old(self).children@.len(),
                self.children@.len() == count,
                self.id == old(self).id,
                self.style == old(self).style,
                self.area == old(self).area,
                self.content_area == old(self).content_area,
                self.widget == old(self).widget,
                self.listeners@ == unregistered(old(self).listeners@, listener_id),
                forall|j: int|
                    0 <= j < i ==> (#[trigger] self.children@[j])@ == old(
                        self,
                    ).children@[j]@.without_listener(listener_id),
                forall|j: int| i <= j < count ==> self.children@[j] == old(self).children@[j],
            decreases count - i,
        {
            let child = &mut self.children[i];
            child.remove_event_listener(listener_id);
            i += 1;
        }
        assert(self@.children =~= old(self)@.without_listener(listener_id).children);
    }

    /// What is to be drawn, in drawing order: the widget of a node before
    /// the widgets below it, and children in their order, so that what comes
    /// later lies on top.
    pub fn render(&self) -> (draws: Vec<Draw<'_, W>>)
        ensures
            draw_views(draws@) == self@.draws(),
    {
        let mut draws: Vec<Draw<'_, W>> = Vec::new();
        self.collect_draws(&mut draws);
        assert(draw_views(draws@) =~= self@.draws());
        draws
    }

    /// Appends the draws of this node and of all below it to `draws`.
    fn collect_draws<'a>(&'a self, draws: &mut Vec<Draw<'a, W>>)
        ensures
            draw_views(final(draws)@) == draw_views(old(draws)@) + self@.draws(),
        decreases self,
    {
        let ghost before = draw_views(draws@);
        match &self.widget {
            Some(widget) => {
                draws.push(Draw { widget, area: self.area, style: self.style });
            },
            None => {},
        }
        let ghost own = draw_views(draws@);
        proof {
            let head = match self@.widget {
                Some(widget) => seq![DrawView { widget, area: self.area, style: self.style }],
                None => Seq::empty(),
            };
            assert(own =~= before + head);
        }
        let mut i: usize = 0;
        while i < self.children.len()
            invariant
                i <= self.children@.len(),
                draw_views(draws@) == own + NodeView::draws_among(self@.children, i as int),
            decreases self.children@.len() - i,
        {
            self.children[i].collect_draws(draws);
            i += 1;
            proof {
                assert(draw_views(draws@) =~= own + NodeView::draws_among(
                    self@.children,
                    i as int,
                ));
            }
        }
    }
}

impl<W, L: Clone> Node<W, L> {
    /// Registers `listener` for `event_type` under `listener_id` on the node
    /// named `target_id`: on this node if it has that name, and else on what
    /// the same call finds below each child. A listener that is already
    /// registered for that type under that identifier is replaced.
    pub fn add_event_listener(
        &mut self,
        target_id: &str,
        event_type: EventType,
        listener: L,
        listener_id: ListenerId,
    )
        ensures
            old(self)@.listener_added(final(self)@, target_id@, event_type, listener_id, listener),
            tables_distinct(old(self)@) ==> tables_distinct(final(self)@),
    {
        self.register(target_id, event_type, &listener, listener_id);
        proof {
            if tables_distinct(old(self)@) {
                lemma_listener_added_keeps_tables(
                    old(self)@,
                    self@,
                    target_id@,
                    event_type,
                    listener_id,
                    listener,
                );
            }
        }
    }

    fn register(
        &mut self,
        target_id: &str,
        event_type: EventType,
        listener: &L,
        listener_id: ListenerId,
    )
        ensures
            old(self)@.listener_added(final(self)@, target_id@, event_type, listener_id, *listener),
        decreases *old(self),
    {
        if same_text(self.id.as_str(), target_id) {
            let entry = ListenerEntry { event_type, id: listener_id, callback: listener.clone() };
            let ghost stored = entry.callback;
            assert(cloned(*listener, stored));
            let mut i: usize = 0;
            while i < self.listeners.len()
                invariant
                    i <= self.listeners@.len(),
                    *self == *old(self),
                    self.id@ == target_id@,
                    entry == (ListenerEntry { event_type, id: listener_id, callback: stored }),
                    cloned(*listener, stored),
                    forall|j: int|
                        0 <= j < i ==> !((#[trigger] self.listeners@[j]).event_type == event_type
                            && self.listeners@[j].id == listener_id),
                decreases self.listeners@.len() - i,
            {
                if self.listeners[i].event_type == event_type && self.listeners[i].id
                    == listener_id {
                    proof {
                        lemma_entry_index(self.listeners@, event_type, listener_id, i as int);
                    }
                    self.listeners.set(i, entry);
                    assert(self@.children =~= old(self)@.children);
                    assert(self@.listeners == registered(
                        old(self)@.listeners,
                        ListenerEntry { event_type, id: listener_id, callback: stored },
                    ));
                    return ;
                }
                i += 1;
            }
            proof {
                lemma_entry_index(
                    self.listeners@,
                    event_type,
                    listener_id,
                    self.listeners@.len() as int,
                );
            }
            self.listeners.push(entry);
            assert(self@.children =~= old(self)@.children);
            assert(self@.listeners == registered(
                old(self)@.listeners,
                ListenerEntry { event_type, id: listener_id, callback: stored },
            ));
            return ;
        }
        let count = self.children.len();
        let mut i: usize = 0;
        while i < count
            invariant
                i <= count,
                count == old(self).children@.len(),
                self.children@.len() == count,
                self.id == old(self).id,
                self.style == old(self).style,
                self.area == old(self).area,
                self.content_area == old(self).content_area,
                self.widget == old(self).widget,
                self.listeners == old(self).listeners,
                forall|j: int|
                    0 <= j < i ==> (#[trigger] old(self).children@[j])@.listener_added(
                        self.children@[j]@,
                        target_id@,
                        event_type,
                        listener_id,
                        *listener,
                    ),
                forall|j: int| i <= j < count ==> self.children@[j] == old(self).children@[j],
            decreases count - i,
        {
            let child = &mut self.children[i];
            child.register(target_id, event_type, listener, listener_id);
            i += 1;
        }
    }
}

impl<W: Widget, L> Node<W, L> {
    /// Adds a leaf named `id` that holds `widget` below the first node named
    /// `parent_id`. Its style is `style`; without one, the style that the
    /// widget asks for; without that, the default style. Without such a
    /// parent nothing happens.
    pub fn add_widget(&mut self, parent_id: &str, id: String, widget: W, style: Option<Style>)
        ensures
            old(self)@.widget_added(final(self)@, parent_id@, id@, widget, style),
            tables_distinct(old(self)@) ==> tables_distinct(final(self)@),
    {
        let style = match style {
            Some(style) => style,
            None => {
                let hint = widget.node_style_hint();
                assert(hints(widget, hint));
                match hint {
                    Some(style) => style,
                    None => Style::new(),
                }
            },
        };
        self.add_widget_box(parent_id, id, widget, style);
    }

    /// Lays out the tree below this node in `parent_area`: the node takes the
    /// whole area, its content what its widget measures, and its children
    /// the areas that its style cuts out of the area.
    pub fn layout(&mut self, parent_area: Rect)
        ensures
            old(self)@.laid_out(final(self)@, parent_area),
            tables_distinct(old(self)@) ==> tables_distinct(final(self)@),
        decreases *old(self),
    {
        self.lay_out(parent_area);
        proof {
            if tables_distinct(old(self)@) {
                lemma_layout_keeps_tables(old(self)@, self@, parent_area);
            }
        }
    }

    fn lay_out(&mut self, parent_area: Rect)
        ensures
            old(self)@.laid_out(final(self)@, parent_area),
        decreases *old(self),
    {
        self.area = parent_area;
        self.content_area = match &self.widget {
            Some(widget) => {
                let size = widget.content_size(parent_area);
                assert(measures(*widget, parent_area, size));
                Rect::new(parent_area.x, parent_area.y, size.0, size.1)
            },
            None => parent_area,
        };
        let count = self.children.len();
        let areas = self.style.calculate_children_areas(parent_area, count);
        let mut i: usize = 0;
        while i < count
            invariant
                i <= count,
                count == old(self).children@.len(),
                self.children@.len() == count,
                self.id == old(self).id,
                self.style == old(self).style,
                self.area == parent_area,
                NodeView::<W, L>::content_laid_out(
                    old(self).widget,
                    parent_area,
                    self.content_area,
                ),
                self.widget == old(self).widget,
                self.listeners == old(self).listeners,
                areas@ == self.style.spec_children_areas(parent_area, count as nat),
                forall|j: int|
                    0 <= j < i ==> (#[trigger] old(self).children@[j])@.laid_out(
                        self.children@[j]@,
                        areas@[j],
                    ),
                forall|j: int| i <= j < count ==> self.children@[j] == old(self).children@[j],
            decreases count - i,
        {
            let area = areas[i];
            let child = &mut self.children[i];
            child.lay_out(area);
            i += 1;
        }
    }
}

/// Where the first `to` children are not named `id`, the first child of that
/// name is child `to`, or there is none if `to` is the number of children.
proof fn lemma_child_index<W, L>(nodes: Seq<NodeView<W, L>>, id: Seq<char>, to: int)
    requires
        0 <= to <= nodes.len(),
        forall|j: int| 0 <= j < to ==> (#[trigger] nodes[j]).id != id,
        to < nodes.len() ==> nodes[to].id == id,
    ensures
        NodeView::child_index(nodes, id) == to,
    decreases to,
{
    if to > 0 {
        let rest = nodes.drop_first();
        assert forall|j: int| 0 <= j < to - 1 implies (#[trigger] rest[j]).id != id by {
            assert(rest[j] == nodes[j + 1]);
        }
        lemma_child_index(rest, id, to - 1);
    }
}

/// Where the first `to` entries are not for `event_type` and `id`, the first
/// such entry is entry `to`, or there is none if `to` is the number of
/// entries.
proof fn lemma_entry_index<L>(
    entries: Seq<ListenerEntry<L>>,
    event_type: EventType,
    id: ListenerId,
    to: int,
)
    requires
        0 <= to <= entries.len(),
        forall|j: int|
            0 <= j < to ==> !((#[trigger] entries[j]).event_type == event_type && entries[j].id
                == id),
        to < entries.len() ==> entries[to].event_type == event_type && entries[to].id == id,
    ensures
        entry_index(entries, event_type, id) == to,
    decreases to,
{
    if to > 0 {
        let rest = entries.drop_first();
        assert forall|j: int| 0 <= j < to - 1 implies !((#[trigger] rest[j]).event_type
            == event_type && rest[j].id == id) by {
            assert(rest[j] == entries[j + 1]);
        }
        lemma_entry_index(rest, event_type, id, to - 1);
    }
}

/// Taking out an entry that carries `id` does not change what is left once
/// all such entries are gone.
proof fn lemma_unregistered_remove<L>(entries: Seq<ListenerEntry<L>>, id: ListenerId, at: int)
    requires
        0 <= at < entries.len(),
        entries[at].id == id,
    ensures
        unregistered(entries.remove(at), id) == unregistered(entries, id),
    decreases entries.len(),
{
    if at == entries.len() - 1 {
        assert(entries.remove(at) =~= entries.drop_last());
    } else {
        assert(entries.remove(at).drop_last() =~= entries.drop_last().remove(at));
        assert(entries.remove(at).last() == entries.last());
        lemma_unregistered_remove(entries.drop_last(), id, at);
    }
}

/// Where no entry carries `id`, nothing is taken out.
proof fn lemma_unregistered_none<L>(entries: Seq<ListenerEntry<L>>, id: ListenerId)
    requires
        forall|j: int| 0 <= j < entries.len() ==> (#[trigger] entries[j]).id != id,
    ensures
        unregistered(entries, id) == entries,
    decreases entries.len(),
{
    if entries.len() > 0 {
        lemma_unregistered_none(entries.drop_last(), id);
        assert(entries.drop_last().push(entries.last()) =~= entries);
    }
}

} // verus!
