//! Views over data

pub mod list;
pub mod state;

pub use list::ListView;
pub use state::ListState;
