//! Session-level modes and the interface through which the host runs action
//! handlers.

use vstd::prelude::*;

verus! {

/// The two application modes. While in `Command`, key input is collected and
/// dispatched; while in `Scroll`, the host routes keys to its output viewport.
#[derive(Debug, Clone, Copy, PartialEq, Eq, Structural)]
pub enum Mode {
    /// Navigating menus and triggering actions.
    Command,
    /// Scrolling through output.
    Scroll,
}

impl Mode {
    /// The other mode.
    pub open spec fn toggled(self) -> Mode {
        match self {
            Mode::Command => Mode::Scroll,
            Mode::Scroll => Mode::Command,
        }
    }
}

/// The rendering method a host event loop should use.
#[derive(Debug, Clone, Copy, PartialEq, Eq, Structural)]
pub enum RenderMode {
    /// Full-screen terminal interface.
    TUI,
    /// Plain line-oriented text interface.
    Text,
}

/// Marker for registering a synchronous handler.
pub struct SyncFnMarker;

/// Marker for registering an asynchronous handler.
pub struct AsyncFnMarker;

/// An action handler, as the menu tree stores it: a host-chosen token naming
/// the handler, tagged with how the host must drive it to completion. The
/// handlers themselves are host code; the engine hands the whole `ActionType`
/// to an [`ActionRunner`] when the item is selected.
#[derive(Debug, Clone, Copy, PartialEq, Eq, Structural)]
pub enum ActionType {
    /// A handler the host calls directly.
    Sync(u64),
    /// A handler the host drives to completion before returning, blocking the
    /// single control thread for the duration.
    Async(u64),
}

/// The host side of action dispatch. The engine calls `run_action` with the
/// registered handler and the parameter text whenever a command resolves to an
/// action item, and `run_tick` on every tick. Implementations live outside
/// the engine; nothing is assumed of them beyond their signatures.
pub trait ActionRunner<T> {
    /// Run one handler against the host state; an async handler is driven to
    /// completion before this returns. The result is the optional user-facing
    /// message.
    fn run_action(&mut self, action: &ActionType, state: &mut T, params: Option<&str>) -> Option<
        String,
    >;

    /// Time-based side effects: may mutate the state and append messages.
    fn run_tick(&mut self, state: &mut T, messages: &mut Vec<String>, delta_ms: u64);
}

} // verus!
