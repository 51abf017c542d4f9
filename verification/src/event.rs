//! Events, listener identities and the commands that mutate the tree.

use vstd::prelude::*;
use crate::style::Style;

verus! {

/// `crossterm::event::KeyCode`, carried through without being looked into.
#[verifier::external_type_specification]
#[verifier::external_body]
pub struct ExKeyCode(crossterm::event::KeyCode);

/// `crossterm::event::KeyEvent`, carried through without being looked into.
#[verifier::external_type_specification]
#[verifier::external_body]
pub struct ExKeyEvent(crossterm::event::KeyEvent);

/// `Clone::clone` of `crossterm::event::KeyEvent`. The type is `Copy`, and its
/// `Clone` is derived: the clone is the value itself.
pub assume_specification[ <crossterm::event::KeyEvent as Clone>::clone ](
    event: &crossterm::event::KeyEvent,
) -> (copy: crossterm::event::KeyEvent)
    ensures
        copy == *event,
;

/// Unique identifier for an event listener. It is used only to remove the
/// listener again.
#[derive(Clone, Copy, Debug, PartialEq, Eq, Hash, Structural)]
pub struct ListenerId(pub u64);

/// The source of listener identifiers: it hands out 0, 1, 2, ... and so never
/// the same identifier twice before it has handed out all of them.
#[derive(Debug)]
pub struct ListenerCounter {
    pub next: u64,
}

impl ListenerCounter {
    /// A counter that starts at zero.
    pub fn new() -> (counter: ListenerCounter)
        ensures
            counter.next == 0,
    {
        ListenerCounter { next: 0 }
    }
}

impl ListenerId {
    /// Takes the next identifier from `counter`. After the largest number the
    /// counter starts again at zero.
    pub fn new(counter: &mut ListenerCounter) -> (id: ListenerId)
        ensures
            id.0 == old(counter).next,
            final(counter).next == if old(counter).next == u64::MAX {
                0
            } else {
                old(counter).next + 1
            },
    {
        let id = ListenerId(counter.next);
        counter.next = if counter.next == u64::MAX {
            0
        } else {
            counter.next + 1
        };
        id
    }
}

/// Event types that can be listened to.
#[derive(Clone, Copy, Debug, PartialEq, Eq, Hash, Structural)]
pub enum EventType {
    Click,
    DoubleClick,
    RightClick,
    ScrollUp,
    ScrollDown,
    Hover,
}

/// A mouse button.
#[derive(Clone, Copy, Debug, PartialEq, Eq, Hash, Structural)]
pub enum MouseButton {
    Left,
    Right,
    Middle,
}

/// What the pointer did.
#[derive(Clone, Copy, Debug, PartialEq, Eq, Hash, Structural)]
pub enum MouseEventKind {
    /// A button was pressed.
    Down(MouseButton),
    /// A button was released.
    Up(MouseButton),
    /// The pointer moved with a button held.
    Drag(MouseButton),
    /// The pointer moved with no button held.
    Moved,
    ScrollDown,
    ScrollUp,
    ScrollLeft,
    ScrollRight,
}

/// A raw pointer event: what happened, at which cell, and the bits of the
/// modifier keys that were held.
#[derive(Clone, Copy, Debug, PartialEq, Eq, Hash, Structural)]
pub struct MouseEvent {
    pub kind: MouseEventKind,
    pub column: u16,
    pub row: u16,
    pub modifiers: u8,
}

impl MouseEventKind {
    /// The event type that listeners hear for this kind of raw input: a press
    /// is a click, a move a hover, a vertical scroll a scroll. Releases,
    /// drags and horizontal scrolls are heard by nobody.
    pub open spec fn spec_event_type(self) -> Option<EventType> {
        match self {
            MouseEventKind::Down(_) => Some(EventType::Click),
            MouseEventKind::Moved => Some(EventType::Hover),
            MouseEventKind::ScrollUp => Some(EventType::ScrollUp),
            MouseEventKind::ScrollDown => Some(EventType::ScrollDown),
            _ => None,
        }
    }

    /// The scroll distance that goes with this kind of raw input: one step up
    /// or one step down, and none for anything but a vertical scroll.
    pub open spec fn spec_scroll_delta(self) -> Option<i32> {
        match self {
            MouseEventKind::ScrollUp => Some(1i32),
            MouseEventKind::ScrollDown => Some(-1i32),
            _ => None,
        }
    }

    pub fn event_type(self) -> (event_type: Option<EventType>)
        ensures
            event_type == self.spec_event_type(),
    {
        match self {
            MouseEventKind::Down(_) => Some(EventType::Click),
            MouseEventKind::Moved => Some(EventType::Hover),
            MouseEventKind::ScrollUp => Some(EventType::ScrollUp),
            MouseEventKind::ScrollDown => Some(EventType::ScrollDown),
            _ => None,
        }
    }

    pub fn scroll_delta(self) -> (delta: Option<i32>)
        ensures
            delta == self.spec_scroll_delta(),
    {
        match self {
            MouseEventKind::ScrollUp => Some(1),
            MouseEventKind::ScrollDown => Some(-1),
            _ => None,
        }
    }
}

/// Context passed to event listeners.
#[derive(Clone)]
pub struct EventContext {
    pub event_type: EventType,
    pub target_id: String,
    pub mouse_x: Option<u16>,
    pub mouse_y: Option<u16>,
    pub scroll_delta: Option<i32>,
    pub key_code: Option<crossterm::event::KeyCode>,
}

/// What a listener is told, as plain values.
pub struct EventContextView {
    pub event_type: EventType,
    pub target_id: Seq<char>,
    pub mouse_x: Option<u16>,
    pub mouse_y: Option<u16>,
    pub scroll_delta: Option<i32>,
    pub key_code: Option<crossterm::event::KeyCode>,
}

impl View for EventContext {
    type V = EventContextView;

    open spec fn view(&self) -> EventContextView {
        EventContextView {
            event_type: self.event_type,
            target_id: self.target_id@,
            mouse_x: self.mouse_x,
            mouse_y: self.mouse_y,
            scroll_delta: self.scroll_delta,
            key_code: self.key_code,
        }
    }
}

impl EventContextView {
    /// The context of a pointer event of type `event_type` that hit the node
    /// `target_id`.
    pub open spec fn pointer(
        event_type: EventType,
        target_id: Seq<char>,
        mouse: MouseEvent,
    ) -> EventContextView {
        EventContextView {
            event_type,
            target_id,
            mouse_x: Some(mouse.column),
            mouse_y: Some(mouse.row),
            scroll_delta: mouse.kind.spec_scroll_delta(),
            key_code: None,
        }
    }
}

impl EventContext {
    /// The context of a pointer event of type `event_type` that hit the node
    /// `target_id`.
    pub fn pointer(event_type: EventType, target_id: String, mouse: MouseEvent) -> (ctx:
        EventContext)
        ensures
            ctx@ == EventContextView::pointer(event_type, target_id@, mouse),
    {
        EventContext {
            event_type,
            target_id,
            mouse_x: Some(mouse.column),
            mouse_y: Some(mouse.row),
            scroll_delta: mouse.kind.scroll_delta(),
            key_code: None,
        }
    }

    /// A copy of the context, for the next listener.
    pub fn duplicate(&self) -> (copy: EventContext)
        ensures
            copy@ == self@,
    {
        EventContext {
            event_type: self.event_type,
            target_id: self.target_id.clone(),
            mouse_x: self.mouse_x,
            mouse_y: self.mouse_y,
            scroll_delta: self.scroll_delta,
            key_code: self.key_code,
        }
    }
}

/// Messages sent from outside to the loop that owns the tree.
pub enum UiMessage<W, L> {
    AddWidget { parent_id: String, id: String, widget: W, style: Style },
    AddContainer { parent_id: String, id: String, style: Style },
    RemoveWidget(String),
    UpdateWidget { id: String, widget: W },
    UpdateStyle { id: String, style: Style },
    AddEventListener { target_id: String, event_type: EventType, listener: L, listener_id: ListenerId },
    RemoveEventListener { listener_id: ListenerId },
}

/// Events received from the terminal (keyboard, mouse, resize).
#[derive(Clone, Debug)]
pub enum Event {
    Key(crossterm::event::KeyEvent),
    Mouse(MouseEvent),
    Resize(u16, u16),
}

} // verus!
