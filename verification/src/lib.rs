//! A retained-mode scene graph for terminal user interfaces.
//!
//! Callers change a tree of named nodes by commands, and one loop owns the
//! tree: it applies the commands, lays the tree out, says what is to be
//! drawn, and finds the listeners of the node under the pointer.
//!
//! - [`style`]: styles and the box layout engine.
//! - [`internal`]: the tree of nodes with its mutations, layout, hit test and
//!   listener tables, its mathematical model ([`internal::view`]) and the
//!   laws that hold of it ([`internal::laws`]).
//! - [`internal::render`]: the decisions of the loop that owns one tree.
//! - [`event`]: events, listener identities and commands.
//! - [`document`]: the handles that submit commands to the loop.
//! - [`widget`], [`component`]: what the leaves of the tree hold.
//!
//! The crate neither draws nor reads the terminal nor calls a listener: it
//! says what to draw and whom to call, and the program around it does so.

pub mod component;
pub mod document;
pub mod event;
pub mod internal;
pub mod rect;
pub mod style;
pub mod widget;

pub use component::{Column, Component, Row, Text};
pub use document::{
    Container, ContainerHandle, Document, LoopEnds, SubmitError, Ui, WidgetHandle, WidgetOps,
};
pub use event::{Event, UiMessage};
pub use rect::Rect;
pub use style::{Border, BorderKind, Dimension, Display, FlexDirection, RectOffset, Style};
