//! A tiling window manager core.
//!
//! The crate computes, from a stream of window events and user commands, the
//! layout of a single screen: which windows are visible, where each of them
//! is placed, and which one has the input focus. It never talks to a display
//! server; a backend feeds it events and applies the layouts it returns.
//!
//! The window managers are layered. [`tiling::TilingWM`] places windows in a
//! master tile and a stack of side tiles. [`floating::FloatingWM`] adds
//! windows that float above the tiles, [`minimise::MinimiseWM`] adds hidden
//! windows, and [`fullscreen::FullWM`] lets one window take the whole screen.
//! [`gaps::GapsWM`] insets the tiles by a margin, and
//! [`workspaces::MultiWorkspaceWM`] switches between independent workspaces.
//! [`fullscreen_wm::FullscreenWM`] is the simplest manager of all: it shows
//! the focused window alone.
//!
//! Each window manager has a mathematical model of its state, and every
//! one of its operations is verified against a contract that says how the
//! operation changes that state. The traits in [`wm`] state what holds of
//! every window manager with a capability. The lists of windows that all
//! of them keep are in [`order`].
//!
//! What a backend decides between the display server and a window manager
//! is in [`backend`]: the geometry of a new window, the answer to a request
//! of an application, the difference between two layouts.

pub mod backend;
pub mod floating;
pub mod fullscreen;
pub mod fullscreen_wm;
pub mod gaps;
pub mod minimise;
pub mod order;
pub mod tiling;
pub mod types;
pub mod wm;
pub mod wm_error;
pub mod workspaces;

