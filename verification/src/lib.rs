//! Core of a retained-mode widget toolkit
//!
//! A window holds a tree of widgets. The library lays the tree out, finds
//! widgets by identifier and by coordinate, routes input to them and keeps
//! track of what the toolkit has to do next. It talks to no platform: input
//! comes in as plain values, and what is to be drawn goes out as a list of
//! instructions.
//!
//! - [`geom`]: coordinates, sizes and regions, with saturating arithmetic
//! - [`layout`]: size rules, their algebra, and the division of space
//! - [`model`], [`placement`], [`delivery`], [`drawing`], [`shape`]: the
//!   mathematical model of a widget tree, over which the contracts of the
//!   operations on widgets are stated, and what holds of it
//! - [`traits`]: the widget traits
//! - [`widget`]: the widgets, and the scroll component
//! - [`event`]: events, input routing, focus, grabs and timers
//! - [`window`]: a widget tree with its event manager

pub mod data;
pub mod delivery;
pub mod draw;
pub mod drawing;
pub mod event;
pub mod geom;
pub mod layout;
pub mod model;
pub mod placement;
pub mod shape;
pub mod toolkit;
pub mod traits;
pub mod widget;
pub mod window;

pub use data::{CoreData, WidgetId, WindowId};
pub use layout::{Align, AlignHints, AxisInfo, Direction, LayoutData};
pub use toolkit::TkAction;
pub use traits::{
    EventHandler, Layout, Popup, ThemeAction, Widget, WidgetChildren, WidgetConfig, WidgetCore,
};
