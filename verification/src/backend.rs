//! What a display backend has to decide around the window managers.
//!
//! A backend talks to the display server. It turns what the server reports
//! into calls of a window manager and the layouts of the window manager into
//! requests to the server. The decisions on the way are made here, on plain
//! values: which geometry a new window gets, whether it floats, what has to
//! change on the screen between two layouts.

pub mod apply;
pub mod ewmh;
pub mod hints;
pub mod input;
pub mod requests;
pub mod window_state;
