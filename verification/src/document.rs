//! Handles: what callers hold to change the tree from outside the loop.
//!
//! A handle turns a call into a command and submits it to the loop without
//! waiting. A command that the channel to the loop cannot take at once comes
//! back in the error; whether a submitted command finds its node is not known
//! to the caller, and a command for a node that is not there changes nothing.

use vstd::prelude::*;
use crate::event::{Event, UiMessage};
use crate::internal::render::{root_id, CHANNEL_CAPACITY};
use crate::style::Style;
use crate::widget::{hints, Widget};

verus! {

/// `tokio::sync::mpsc::Sender`, the sending half of a bounded channel.
#[verifier::external_type_specification]
#[verifier::external_body]
#[verifier::reject_recursive_types(T)]
pub struct ExSender<T>(tokio::sync::mpsc::Sender<T>);

/// `tokio::sync::mpsc::Receiver`, the receiving half of a bounded channel.
#[verifier::external_type_specification]
#[verifier::external_body]
#[verifier::reject_recursive_types(T)]
pub struct ExReceiver<T>(tokio::sync::mpsc::Receiver<T>);

/// Why a command was not submitted. Either way the command comes back.
pub enum SubmitError<W, L> {
    /// The channel holds as many commands as it can.
    Full(UiMessage<W, L>),
    /// The loop is gone.
    Closed(UiMessage<W, L>),
}

impl<W, L> SubmitError<W, L> {
    /// The command that was not submitted.
    pub open spec fn message(self) -> UiMessage<W, L> {
        match self {
            SubmitError::Full(msg) => msg,
            SubmitError::Closed(msg) => msg,
        }
    }

    /// The command that was not submitted.
    pub fn into_message(self) -> (msg: UiMessage<W, L>)
        ensures
            msg == self.message(),
    {
        match self {
            SubmitError::Full(msg) => msg,
            SubmitError::Closed(msg) => msg,
        }
    }

    /// Whether the channel was full. The loop is still there then, and the
    /// command may be tried again.
    pub fn is_full(&self) -> (full: bool)
        ensures
            full == (*self is Full),
    {
        match self {
            SubmitError::Full(_) => true,
            SubmitError::Closed(_) => false,
        }
    }
}

/// Calls `tokio::sync::mpsc::Sender::try_send`, which returns at once. Whether
/// the channel takes the command depends on what the channel holds and on
/// whether its receiver is alive, so nothing is said of that. Where it does
/// not, `try_send` hands the command back in its error, and so does this.
#[verifier::external_body]
fn try_submit<W, L>(ui_tx: &tokio::sync::mpsc::Sender<UiMessage<W, L>>, msg: UiMessage<W, L>) -> (sent:
    Result<(), SubmitError<W, L>>)
    ensures
        sent matches Err(error) ==> error.message() == msg,
{
    match ui_tx.try_send(msg) {
        Ok(()) => Ok(()),
        Err(tokio::sync::mpsc::error::TrySendError::Full(msg)) => Err(SubmitError::Full(msg)),
        Err(tokio::sync::mpsc::error::TrySendError::Closed(msg)) => Err(SubmitError::Closed(msg)),
    }
}

/// `Clone::clone` of `tokio::sync::mpsc::Sender` gives another sender for the
/// same channel. Nothing is said of it.
pub assume_specification<T>[ <tokio::sync::mpsc::Sender<T> as Clone>::clone ](
    ui_tx: &tokio::sync::mpsc::Sender<T>,
) -> (shared: tokio::sync::mpsc::Sender<T>)
;

/// Calls `tokio::sync::mpsc::channel`, which makes a channel that holds up to
/// `capacity` values. It panics for a capacity of zero and for one above
/// `usize::MAX >> 3`; the contract leaves both out.
#[verifier::external_body]
fn open_channel<T>(capacity: usize) -> (ends: (
    tokio::sync::mpsc::Sender<T>,
    tokio::sync::mpsc::Receiver<T>,
))
    requires
        0 < capacity <= usize::MAX / 8,
{
    tokio::sync::mpsc::channel(capacity)
}

/// What a caller gets for a submission: the handle if the command was taken,
/// the error if it was not.
pub fn answer<H, W, L>(sent: Result<(), SubmitError<W, L>>, handle: H) -> (reply: Result<
    H,
    SubmitError<W, L>,
>)
    ensures
        reply == match sent {
            Ok(_) => Ok::<H, SubmitError<W, L>>(handle),
            Err(error) => Err::<H, SubmitError<W, L>>(error),
        },
{
    match sent {
        Ok(_) => Ok(handle),
        Err(error) => Err(error),
    }
}

impl<W, L> UiMessage<W, L> {
    /// Whether the command adds a container named `id` with `style` below
    /// the node named `parent_id`.
    pub open spec fn adds_container(self, parent_id: Seq<char>, id: Seq<char>, style: Style) -> bool {
        self matches UiMessage::AddContainer { parent_id: p, id: i, style: s } && p@ == parent_id
            && i@ == id && s == style
    }

    /// Whether the command adds a leaf named `id` that holds `widget` with
    /// `style` below the node named `parent_id`.
    pub open spec fn adds_widget(self, parent_id: Seq<char>, id: Seq<char>, widget: W, style: Style) -> bool {
        self matches UiMessage::AddWidget { parent_id: p, id: i, widget: w, style: s } && p@
            == parent_id && i@ == id && w == widget && s == style
    }

    /// Whether the command puts `widget` into the node named `id`.
    pub open spec fn updates_widget(self, id: Seq<char>, widget: W) -> bool {
        self matches UiMessage::UpdateWidget { id: i, widget: w } && i@ == id && w == widget
    }

    /// Whether the command removes the node named `id`.
    pub open spec fn removes(self, id: Seq<char>) -> bool {
        self matches UiMessage::RemoveWidget(i) && i@ == id
    }
}

/// The style of a leaf that is added without one: a style that the widget
/// asks for, or the default style if it asks for none.
pub open spec fn hinted_style<W: Widget>(widget: W, style: Style) -> bool {
    exists|hint: Option<Style>|
        hints(widget, hint) && style == match hint {
            Some(style) => style,
            None => Style::spec_default(),
        }
}

/// The command that adds a container named `id` below `parent_id`.
pub fn container_message<W, L>(parent_id: &str, id: &str, style: Style) -> (msg: UiMessage<W, L>)
    ensures
        msg.adds_container(parent_id@, id@, style),
{
    UiMessage::AddContainer { parent_id: parent_id.to_owned(), id: id.to_owned(), style }
}

/// The command that adds a leaf named `id` that holds `widget` below
/// `parent_id`, with the style that the widget asks for.
pub fn widget_message<W: Widget, L>(parent_id: &str, id: &str, widget: W) -> (msg: UiMessage<W, L>)
    ensures
        exists|style: Style| hinted_style(widget, style) && msg.adds_widget(parent_id@, id@, widget, style),
{
    let hint = widget.node_style_hint();
    assert(hints(widget, hint));
    let style = match hint {
        Some(style) => style,
        None => Style::new(),
    };
    let msg = UiMessage::AddWidget { parent_id: parent_id.to_owned(), id: id.to_owned(), widget, style };
    assert(hinted_style(widget, style) && msg.adds_widget(parent_id@, id@, widget, style));
    msg
}

/// Handle to a container.
#[verifier::reject_recursive_types(W)]
#[verifier::reject_recursive_types(L)]
pub struct ContainerHandle<W, L> {
    ui_tx: tokio::sync::mpsc::Sender<UiMessage<W, L>>,
    id: String,
}

/// Handle to a widget.
#[verifier::reject_recursive_types(W)]
#[verifier::reject_recursive_types(L)]
pub struct WidgetHandle<W, L> {
    ui_tx: tokio::sync::mpsc::Sender<UiMessage<W, L>>,
    id: String,
}

/// Handle to the tree as a whole: commands go to the loop, and the events of
/// the terminal come back.
#[verifier::reject_recursive_types(W)]
#[verifier::reject_recursive_types(L)]
pub struct Document<W, L> {
    ui_tx: tokio::sync::mpsc::Sender<UiMessage<W, L>>,
    event_rx: tokio::sync::mpsc::Receiver<Event>,
}

/// The ends of the two channels that the loop holds: commands come out of
/// one, and the events of the terminal go into the other.
#[verifier::reject_recursive_types(W)]
#[verifier::reject_recursive_types(L)]
pub struct LoopEnds<W, L> {
    pub ui_rx: tokio::sync::mpsc::Receiver<UiMessage<W, L>>,
    pub event_tx: tokio::sync::mpsc::Sender<Event>,
}

/// Main entry point for the UI system.
pub struct Ui;

impl Ui {
    /// Opens the channel for commands and the channel for events, each for
    /// [`CHANNEL_CAPACITY`] entries, and hands out their ends: the document
    /// for the caller, the rest for the loop.
    pub fn connect<W, L>() -> (ends: (Document<W, L>, LoopEnds<W, L>)) {
        let (ui_tx, ui_rx) = open_channel(CHANNEL_CAPACITY);
        let (event_tx, event_rx) = open_channel(CHANNEL_CAPACITY);
        (Document { ui_tx, event_rx }, LoopEnds { ui_rx, event_tx })
    }
}

/// A container that can hold widgets and other containers.
pub trait Container<W: Widget, L> {
    /// Submits the command that adds a container named `id` below this one.
    /// The handle to the new container comes back if the command was taken.
    fn add_container(&self, id: &str, style: Style) -> (reply: Result<
        ContainerHandle<W, L>,
        SubmitError<W, L>,
    >)
        ensures
            reply matches Ok(handle) ==> handle.spec_id() == id@,
    ;

    /// Submits the command that adds a leaf named `id` that holds `widget`
    /// below this container, with the style that the widget asks for. The
    /// handle to the new leaf comes back if the command was taken.
    fn add_widget(&self, id: &str, widget: W) -> (reply: Result<
        WidgetHandle<W, L>,
        SubmitError<W, L>,
    >)
        ensures
            reply matches Ok(handle) ==> handle.spec_id() == id@,
    ;
}

/// Operations available on a widget handle.
pub trait WidgetOps<W: Widget, L>: Sized {
    /// Submits the command that puts `widget` in place of the widget.
    fn update(&self, widget: W) -> (reply: Result<(), SubmitError<W, L>>);

    /// Submits the command that removes the widget.
    fn remove(self) -> (reply: Result<(), SubmitError<W, L>>);
}

impl<W, L> ContainerHandle<W, L> {
    /// The name of the container.
    pub closed spec fn spec_id(&self) -> Seq<char> {
        self.id@
    }

    pub fn id(&self) -> (id: &str)
        ensures
            id@ == self.spec_id(),
    {
        self.id.as_str()
    }
}

impl<W, L> WidgetHandle<W, L> {
    /// The name of the widget.
    pub closed spec fn spec_id(&self) -> Seq<char> {
        self.id@
    }

    pub fn id(&self) -> (id: &str)
        ensures
            id@ == self.spec_id(),
    {
        self.id.as_str()
    }
}

impl<W, L> Clone for ContainerHandle<W, L> {
    fn clone(&self) -> (copy: ContainerHandle<W, L>)
        ensures
            copy.spec_id() == self.spec_id(),
    {
        ContainerHandle { ui_tx: self.ui_tx.clone(), id: self.id.clone() }
    }
}

impl<W, L> Clone for WidgetHandle<W, L> {
    fn clone(&self) -> (copy: WidgetHandle<W, L>)
        ensures
            copy.spec_id() == self.spec_id(),
    {
        WidgetHandle { ui_tx: self.ui_tx.clone(), id: self.id.clone() }
    }
}

/// Submits the command that adds a container named `id` below `parent_id`.
fn submit_container<W, L>(
    ui_tx: &tokio::sync::mpsc::Sender<UiMessage<W, L>>,
    parent_id: &str,
    id: &str,
    style: Style,
) -> (reply: Result<ContainerHandle<W, L>, SubmitError<W, L>>)
    ensures
        match reply {
            Ok(handle) => handle.spec_id() == id@,
            Err(error) => error.message().adds_container(parent_id@, id@, style),
        },
{
    let sent = try_submit(ui_tx, container_message(parent_id, id, style));
    answer(sent, ContainerHandle { ui_tx: ui_tx.clone(), id: id.to_owned() })
}

/// Submits the command that adds a leaf named `id` below `parent_id`.
fn submit_widget<W: Widget, L>(
    ui_tx: &tokio::sync::mpsc::Sender<UiMessage<W, L>>,
    parent_id: &str,
    id: &str,
    widget: W,
) -> (reply: Result<WidgetHandle<W, L>, SubmitError<W, L>>)
    ensures
        match reply {
            Ok(handle) => handle.spec_id() == id@,
            Err(error) => exists|style: Style|
                hinted_style(widget, style) && error.message().adds_widget(
                    parent_id@,
                    id@,
                    widget,
                    style,
                ),
        },
{
    let sent = try_submit(ui_tx, widget_message(parent_id, id, widget));
    answer(sent, WidgetHandle { ui_tx: ui_tx.clone(), id: id.to_owned() })
}

/// Submits the command that puts `widget` into the node named `id`.
fn submit_update<W, L>(ui_tx: &tokio::sync::mpsc::Sender<UiMessage<W, L>>, id: &str, widget: W) -> (reply:
    Result<(), SubmitError<W, L>>)
    ensures
        reply matches Err(error) ==> error.message().updates_widget(id@, widget),
{
    try_submit(ui_tx, UiMessage::UpdateWidget { id: id.to_owned(), widget })
}

/// Submits the command that removes the node named `id`.
fn submit_removal<W, L>(ui_tx: &tokio::sync::mpsc::Sender<UiMessage<W, L>>, id: String) -> (reply:
    Result<(), SubmitError<W, L>>)
    ensures
        reply matches Err(error) ==> error.message().removes(id@),
{
    try_submit(ui_tx, UiMessage::RemoveWidget(id))
}

impl<W: Widget, L> Container<W, L> for ContainerHandle<W, L> {
    fn add_container(&self, id: &str, style: Style) -> (reply: Result<
        ContainerHandle<W, L>,
        SubmitError<W, L>,
    >)
        ensures
            reply matches Err(error) ==> error.message().adds_container(self.spec_id(), id@, style),
    {
        submit_container(&self.ui_tx, self.id.as_str(), id, style)
    }

    fn add_widget(&self, id: &str, widget: W) -> (reply: Result<
        WidgetHandle<W, L>,
        SubmitError<W, L>,
    >)
        ensures
            reply matches Err(error) ==> exists|style: Style|
                hinted_style(widget, style) && error.message().adds_widget(
                    self.spec_id(),
                    id@,
                    widget,
                    style,
                ),
    {
        submit_widget(&self.ui_tx, self.id.as_str(), id, widget)
    }
}

impl<W: Widget, L> WidgetOps<W, L> for WidgetHandle<W, L> {
    fn update(&self, widget: W) -> (reply: Result<(), SubmitError<W, L>>)
        ensures
            reply matches Err(error) ==> error.message().updates_widget(self.spec_id(), widget),
    {
        submit_update(&self.ui_tx, self.id.as_str(), widget)
    }

    fn remove(self) -> (reply: Result<(), SubmitError<W, L>>)
        ensures
            reply matches Err(error) ==> error.message().removes(self.spec_id()),
    {
        submit_removal(&self.ui_tx, self.id)
    }
}

impl<W: Widget, L> Container<W, L> for Document<W, L> {
    fn add_container(&self, id: &str, style: Style) -> (reply: Result<
        ContainerHandle<W, L>,
        SubmitError<W, L>,
    >)
        ensures
            reply matches Err(error) ==> error.message().adds_container(root_id(), id@, style),
    {
        submit_container(&self.ui_tx, "root", id, style)
    }

    fn add_widget(&self, id: &str, widget: W) -> (reply: Result<
        WidgetHandle<W, L>,
        SubmitError<W, L>,
    >)
        ensures
            reply matches Err(error) ==> exists|style: Style|
                hinted_style(widget, style) && error.message().adds_widget(
                    root_id(),
                    id@,
                    widget,
                    style,
                ),
    {
        submit_widget(&self.ui_tx, "root", id, widget)
    }
}

impl<W, L> Document<W, L> {
    /// The sender that the document submits to.
    pub closed spec fn commands(&self) -> tokio::sync::mpsc::Sender<UiMessage<W, L>> {
        self.ui_tx
    }

    /// The receiver that the document listens to.
    pub closed spec fn events(&self) -> tokio::sync::mpsc::Receiver<Event> {
        self.event_rx
    }

    /// A handle that submits to `ui_tx` and listens to `event_rx`.
    pub fn new(
        ui_tx: tokio::sync::mpsc::Sender<UiMessage<W, L>>,
        event_rx: tokio::sync::mpsc::Receiver<Event>,
    ) -> (document: Document<W, L>)
        ensures
            document.commands() == ui_tx,
            document.events() == event_rx,
    {
        Document { ui_tx, event_rx }
    }

    /// A handle to the container named `id`, whether or not the tree holds it.
    pub fn get_container(&self, id: &str) -> (handle: ContainerHandle<W, L>)
        ensures
            handle.spec_id() == id@,
    {
        ContainerHandle { ui_tx: self.ui_tx.clone(), id: id.to_owned() }
    }

    /// A handle to the widget named `id`, whether or not the tree holds it.
    pub fn get_widget(&self, id: &str) -> (handle: WidgetHandle<W, L>)
        ensures
            handle.spec_id() == id@,
    {
        WidgetHandle { ui_tx: self.ui_tx.clone(), id: id.to_owned() }
    }

    /// Submits the command that puts `widget` into the node named `id`.
    pub fn update_widget(&self, id: &str, widget: W) -> (reply: Result<(), SubmitError<W, L>>)
        ensures
            reply matches Err(error) ==> error.message().updates_widget(id@, widget),
    {
        submit_update(&self.ui_tx, id, widget)
    }

    /// Submits the command that removes the node named `id`.
    pub fn remove_widget(&self, id: &str) -> (reply: Result<(), SubmitError<W, L>>)
        ensures
            reply matches Err(error) ==> error.message().removes(id@),
    {
        submit_removal(&self.ui_tx, id.to_owned())
    }

    /// Submits any command.
    pub fn submit(&self, msg: UiMessage<W, L>) -> (reply: Result<(), SubmitError<W, L>>)
        ensures
            reply matches Err(error) ==> error.message() == msg,
    {
        try_submit(&self.ui_tx, msg)
    }

    /// The receiver of the events that the loop hands on.
    pub fn event_receiver(&mut self) -> (receiver: &mut tokio::sync::mpsc::Receiver<Event>)
        ensures
            *receiver == old(self).events(),
            final(self).events() == *final(receiver),
            final(self).commands() == old(self).commands(),
    {
        &mut self.event_rx
    }
}

} // verus!
