//! Events, responses and the event manager

pub mod events;
pub mod manager;
pub mod navigation;
pub mod response;
pub mod routing;
pub mod timers;

pub use events::{ControlKey, CursorIcon, Event, GrabMode, MouseButton, PressSource, UpdateHandle};
pub use manager::{Grab, Manager, ManagerState, Subscription, Timer};
pub use response::{Response, VoidMsg};
pub use routing::{Dispatch, Input};
