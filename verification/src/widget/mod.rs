//! Widgets

pub mod any;
pub mod configure;
pub mod label;
pub mod menu;
pub mod row;
pub mod scroll;
pub mod stack;
pub mod view;

pub use any::AnyWidget;
pub use label::Label;
pub use menu::MenuFrame;
pub use row::Row;
pub use scroll::ScrollComponent;
pub use stack::Stack;
pub use view::{ListState, ListView};
