//! Menus

pub mod menu_frame;

pub use menu_frame::MenuFrame;
