//! The decisions of the loop that owns the tree.
//!
//! The loop itself runs in the program that owns the terminal: it takes the
//! queued commands, polls the terminal, draws, and sleeps. What each of these
//! does to the tree, and what is to be called and drawn, is decided here.

use vstd::prelude::*;
use crate::event::{Event, EventContext, EventContextView, EventType, MouseEvent, UiMessage};
use crate::internal::laws::{lemma_hit_id_found, tables_distinct};
use crate::internal::view::{callbacks_for, NodeView};
use crate::internal::{invokes, draw_views, Draw, Invocation, Node};
use crate::rect::Rect;
use crate::widget::Widget;

verus! {

/// The number of commands, and of events, that a channel between the loop and
/// its callers holds before it turns further ones away.
pub const CHANNEL_CAPACITY: usize = 100;

/// The time between two frames, in milliseconds.
pub const FRAME_INTERVAL_MS: u64 = 16;

/// The state of the loop that owns the tree.
pub struct RenderLoop<W, L> {
    root: Node<W, L>,
}

/// One thing that happens to the loop.
pub enum LoopInput<W, L> {
    /// A command arrived.
    Command(UiMessage<W, L>),
    /// The terminal reported an event.
    Input(Event),
    /// It is time to draw on a screen of this area.
    Frame(Rect),
}

/// What the loop has to do after a step.
pub enum LoopOutput<'a, W, L> {
    /// Nothing.
    Applied,
    /// Hand `event` on to whoever listens to the terminal, and call `calls`.
    Forward { event: Event, calls: Vec<Invocation<'a, L>> },
    /// Draw `draws`, in order.
    Draw { draws: Vec<Draw<'a, W>> },
}

/// The name of the node that every tree starts with.
pub open spec fn root_id() -> Seq<char> {
    "root"@
}

/// Whether `after` is `before` with the command `msg` applied.
pub open spec fn message_applied<W, L: Clone>(
    before: NodeView<W, L>,
    msg: UiMessage<W, L>,
    after: NodeView<W, L>,
) -> bool {
    match msg {
        UiMessage::AddWidget { parent_id, id, widget, style } => after == before.with_child_under(
            parent_id@,
            NodeView::fresh(id@, style, Some(widget)),
        ),
        UiMessage::AddContainer { parent_id, id, style } => after == before.with_child_under(
            parent_id@,
            NodeView::fresh(id@, style, None),
        ),
        UiMessage::RemoveWidget(id) => after == before.without_child(id@),
        UiMessage::UpdateWidget { id, widget } => after == before.with_widget_in(id@, widget),
        UiMessage::UpdateStyle { id, style } => after == before.with_style_in(id@, style),
        UiMessage::AddEventListener { target_id, event_type, listener, listener_id } =>
            before.listener_added(after, target_id@, event_type, listener_id, listener),
        UiMessage::RemoveEventListener { listener_id } => after == before.without_listener(
            listener_id,
        ),
    }
}

/// What a pointer event leads to.
pub struct Dispatch<L> {
    /// The listeners to call, in order.
    pub listeners: Seq<L>,
    /// What each of them is told.
    pub context: EventContextView,
}

/// The listeners that a pointer event reaches in `tree`, and what they are
/// told. The event must be of a kind that listeners hear, and its position
/// must hit a node. The listeners are those of the first node that has the
/// name of the node that was hit, and only those: nothing is passed on to
/// the nodes above or below it.
pub open spec fn spec_dispatch<W, L>(tree: NodeView<W, L>, mouse: MouseEvent) -> Option<
    Dispatch<L>,
> {
    match (mouse.kind.spec_event_type(), tree.hit_id(mouse.column, mouse.row)) {
        (Some(event_type), Some(target_id)) => Some(
            Dispatch {
                listeners: callbacks_for(
                    tree.node_at(tree.path_to(target_id).unwrap()).listeners,
                    event_type,
                ),
                context: EventContextView::pointer(event_type, target_id, mouse),
            },
        ),
        _ => None,
    }
}

impl<W, L> RenderLoop<W, L> {
    /// The tree that the loop owns.
    pub closed spec fn tree(&self) -> NodeView<W, L> {
        self.root@
    }

    /// A loop whose tree is the empty container named "root".
    pub fn new() -> (state: RenderLoop<W, L>)
        ensures
            state.tree() == NodeView::<W, L>::fresh(
                root_id(),
                crate::style::Style::spec_default(),
                None,
            ),
            tables_distinct(state.tree()),
    {
        RenderLoop { root: Node::new("root".to_owned()) }
    }

    /// The root of the tree.
    pub fn root(&self) -> (root: &Node<W, L>)
        ensures
            root@ == self.tree(),
    {
        &self.root
    }

    /// Dispatch a mouse event to the node under the cursor: the listeners to
    /// call, in order, each with its context.
    pub fn dispatch_mouse_event(&self, mouse: MouseEvent) -> (calls: Vec<Invocation<'_, L>>)
        ensures
            match spec_dispatch(self.tree(), mouse) {
                Some(dispatch) => invokes(calls@, dispatch.listeners, dispatch.context),
                None => calls@.len() == 0,
            },
    {
        let event_type = match mouse.kind.event_type() {
            Some(event_type) => event_type,
            None => {
                return Vec::new();
            },
        };
        let target_id = match self.root.find_widget_at(mouse.column, mouse.row) {
            Some(id) => id,
            None => {
                return Vec::new();
            },
        };
        proof {
            lemma_hit_id_found(self.root@, mouse.column, mouse.row);
        }
        match self.root.find_child(target_id.as_str()) {
            Some(node) => {
                let ctx = EventContext::pointer(event_type, target_id, mouse);
                node.trigger_event(&event_type, ctx)
            },
            None => Vec::new(),
        }
    }

    /// What a terminal event leads to: the event is handed on, and a pointer
    /// event is dispatched to the node under it.
    pub fn handle_event(&self, event: &Event) -> (calls: Vec<Invocation<'_, L>>)
        ensures
            match *event {
                Event::Mouse(mouse) => match spec_dispatch(self.tree(), mouse) {
                    Some(dispatch) => invokes(calls@, dispatch.listeners, dispatch.context),
                    None => calls@.len() == 0,
                },
                _ => calls@.len() == 0,
            },
    {
        match event {
            Event::Mouse(mouse) => self.dispatch_mouse_event(*mouse),
            _ => Vec::new(),
        }
    }
}

impl<W: Widget, L: Clone> RenderLoop<W, L> {
    /// Applies one command to the tree. A command that names a node that the
    /// tree does not hold changes nothing.
    pub fn apply(&mut self, msg: UiMessage<W, L>)
        ensures
            message_applied(old(self).tree(), msg, final(self).tree()),
            tables_distinct(old(self).tree()) ==> tables_distinct(final(self).tree()),
    {
        match msg {
            UiMessage::AddWidget { parent_id, id, widget, style } => {
                self.root.add_widget_box(parent_id.as_str(), id, widget, style);
            },
            UiMessage::AddContainer { parent_id, id, style } => {
                self.root.add_container(parent_id.as_str(), id, style);
            },
            UiMessage::RemoveWidget(id) => {
                self.root.remove_child(id.as_str());
            },
            UiMessage::UpdateWidget { id, widget } => {
                self.root.update_widget_box(id.as_str(), widget);
            },
            UiMessage::UpdateStyle { id, style } => {
                self.root.update_style(id.as_str(), style);
            },
            UiMessage::AddEventListener { target_id, event_type, listener, listener_id } => {
                self.root.add_event_listener(target_id.as_str(), event_type, listener, listener_id);
            },
            UiMessage::RemoveEventListener { listener_id } => {
                self.root.remove_event_listener(listener_id);
            },
        }
    }

    /// Lays the tree out on a screen of area `screen` and says what is to be
    /// drawn, in order.
    pub fn frame(&mut self, screen: Rect) -> (draws: Vec<Draw<'_, W>>)
        ensures
            old(self).tree().laid_out(final(self).tree(), screen),
            draw_views(draws@) == final(self).tree().draws(),
            tables_distinct(old(self).tree()) ==> tables_distinct(final(self).tree()),
    {
        self.root.layout(screen);
        self.root.render()
    }

    /// One step of the loop.
    pub fn step(&mut self, input: LoopInput<W, L>) -> (output: LoopOutput<'_, W, L>)
        ensures
            tables_distinct(old(self).tree()) ==> tables_distinct(final(self).tree()),
            match input {
                LoopInput::Command(msg) => {
                    &&& output is Applied
                    &&& message_applied(old(self).tree(), msg, final(self).tree())
                },
                LoopInput::Input(event) => {
                    &&& final(self).tree() == old(self).tree()
                    &&& output matches LoopOutput::Forward { event: forwarded, calls }
                    &&& forwarded == event
                    &&& match event {
                        Event::Mouse(mouse) => match spec_dispatch(old(self).tree(), mouse) {
                            Some(dispatch) => invokes(calls@, dispatch.listeners, dispatch.context),
                            None => calls@.len() == 0,
                        },
                        _ => calls@.len() == 0,
                    }
                },
                LoopInput::Frame(screen) => {
                    &&& old(self).tree().laid_out(final(self).tree(), screen)
                    &&& output matches LoopOutput::Draw { draws }
                    &&& draw_views(draws@) == final(self).tree().draws()
                },
            },
    {
        match input {
            LoopInput::Command(msg) => {
                self.apply(msg);
                LoopOutput::Applied
            },
            LoopInput::Input(event) => {
                let calls = self.handle_event(&event);
                LoopOutput::Forward { event, calls }
            },
            LoopInput::Frame(screen) => {
                let draws = self.frame(screen);
                LoopOutput::Draw { draws }
            },
        }
    }
}

} // verus!
