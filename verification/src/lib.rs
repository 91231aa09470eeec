//! Istari: a tree-structured command-menu engine.
//!
//! The library models nested menus, navigation between them, resolution and
//! dispatch of commands, a bounded command history with a browse cursor, and
//! an edge-triggered output buffer. Action handlers themselves are host code:
//! the host implements [`types::ActionRunner`] and the engine invokes it when
//! a command resolves to an action item.

pub mod chars;
pub mod menu;
pub mod menu_manager;
pub mod error;
pub mod history;
pub mod istari;
pub mod output;
pub mod scroll;
pub mod types;

pub use error::IstariError;
pub use istari::Istari;
pub use menu::{ItemPayload, Menu, MenuItem};
pub use menu_manager::MenuManager;
pub use history::CommandHistory;
pub use output::OutputBuffer;
pub use scroll::{ScrollDirection, ScrollState};
pub use types::{ActionRunner, ActionType, AsyncFnMarker, Mode, RenderMode, SyncFnMarker};
