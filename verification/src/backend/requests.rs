//! What follows from the requests of applications and of the user.

use vstd::prelude::*;
use crate::backend::hints::{as_unsigned, is_valid, unsigned, valid_geometry};
use crate::types::{Geometry, Window};

verus! {

/// The border width of windows.
pub const WINDOW_BORDER_WIDTH: u32 = 1;

/// The bit of a value mask that says that the x-coordinate is given.
pub const CW_X: u16 = 1;

/// The bit of a value mask that says that the y-coordinate is given.
pub const CW_Y: u16 = 2;

/// The bit of a value mask that says that the width is given.
pub const CW_WIDTH: u16 = 4;

/// The bit of a value mask that says that the height is given.
pub const CW_HEIGHT: u16 = 8;

/// Return the window that a click is meant to focus. A click on a window
/// focuses that window. A click that is reported for the root window
/// focuses the window under the pointer, or no window if the pointer is on
/// the root window itself.
pub fn click_target(root_window: Window, window: Window, subwindow: Window) -> (target: Option<
    Window,
>)
    ensures
        target == if root_window != window {
            Some(window)
        } else if subwindow == 0 {
            None
        } else {
            Some(subwindow)
        },
{
    if root_window == window {
        if subwindow == 0 {
            None
        } else {
            Some(subwindow)
        }
    } else {
        Some(window)
    }
}

/// Return the window that is to be focused when the pointer enters
/// `window`, if any is. A window that has the focus keeps it, and on the
/// root window the focus stays where it is. Only a pointer that enters in
/// the normal way moves the focus, not one that is grabbed or released.
pub fn enter_target(
    focused: Option<Window>,
    root_window: Window,
    window: Window,
    normal: bool,
) -> (target: Option<Window>)
    ensures
        target == if normal && focused != Some(window) && window != root_window {
            Some(window)
        } else {
            None
        },
{
    if !normal {
        return None;
    }
    match focused {
        Some(w) if w == window => None,
        _ => if window == root_window {
            None
        } else {
            Some(window)
        },
    }
}

/// A size that an application asks for, with the border on both sides.
pub open spec fn with_border(size: i32) -> int {
    unsigned(size) + 2 * WINDOW_BORDER_WIDTH
}

/// The geometry that an application asks for: what the value mask says is
/// given replaces what the window has, and a size that is given grows by
/// the border on both sides.
pub open spec fn requested(
    current: Geometry,
    value_mask: u16,
    x: i32,
    y: i32,
    width: i32,
    height: i32,
) -> Geometry {
    Geometry {
        x: if value_mask & CW_X != 0 {
            x
        } else {
            current.x
        },
        y: if value_mask & CW_Y != 0 {
            y
        } else {
            current.y
        },
        width: if value_mask & CW_WIDTH != 0 {
            with_border(width) as u32
        } else {
            current.width
        },
        height: if value_mask & CW_HEIGHT != 0 {
            with_border(height) as u32
        } else {
            current.height
        },
    }
}

/// Return the geometry that an application asks for when it wants its
/// floating window to be moved or resized. What the value mask says is
/// given replaces what the window has. A size that is given grows by the
/// border on both sides, since the border is taken off again when the
/// geometry is set. A size that is given has to leave room for the border.
pub fn requested_geometry(
    current: Geometry,
    value_mask: u16,
    x: i32,
    y: i32,
    width: i32,
    height: i32,
) -> (geometry: Geometry)
    requires
        value_mask & CW_WIDTH != 0 ==> with_border(width) <= u32::MAX,
        value_mask & CW_HEIGHT != 0 ==> with_border(height) <= u32::MAX,
    ensures
        geometry == requested(current, value_mask, x, y, width, height),
{
    Geometry {
        x: if value_mask & CW_X != 0 {
            x
        } else {
            current.x
        },
        y: if value_mask & CW_Y != 0 {
            y
        } else {
            current.y
        },
        width: if value_mask & CW_WIDTH != 0 {
            as_unsigned(width) + 2 * WINDOW_BORDER_WIDTH
        } else {
            current.width
        },
        height: if value_mask & CW_HEIGHT != 0 {
            as_unsigned(height) + 2 * WINDOW_BORDER_WIDTH
        } else {
            current.height
        },
    }
}

/// What the display server is asked for when a window is to get a geometry:
/// the position of the window and its size within the border.
#[derive(Copy, Clone, PartialEq, Eq, Debug, Structural)]
pub struct WindowChanges {
    /// The x-coordinate of the window.
    pub x: i32,
    /// The y-coordinate of the window.
    pub y: i32,
    /// The width of the window within its border.
    pub width: i32,
    /// The height of the window within its border.
    pub height: i32,
    /// The width of the border.
    pub border_width: i32,
}

/// Return what the display server is to be asked for when a window is to
/// get the geometry `geometry`. A geometry that is not valid is ignored:
/// there is nothing to ask for. Otherwise the border is taken off the size
/// on both sides. A valid geometry has to be large enough for the border.
pub fn window_changes(geometry: Geometry) -> (changes: Option<WindowChanges>)
    requires
        is_valid(geometry) ==> geometry.width >= 2 * WINDOW_BORDER_WIDTH && geometry.height >= 2
            * WINDOW_BORDER_WIDTH,
    ensures
        match changes {
            Some(c) => is_valid(geometry) && c == (WindowChanges {
                x: geometry.x,
                y: geometry.y,
                width: (geometry.width - 2 * WINDOW_BORDER_WIDTH) as i32,
                height: (geometry.height - 2 * WINDOW_BORDER_WIDTH) as i32,
                border_width: WINDOW_BORDER_WIDTH as i32,
            }),
            None => !is_valid(geometry),
        },
{
    if !valid_geometry(&geometry) {
        return None;
    }
    Some(
        WindowChanges {
            x: geometry.x,
            y: geometry.y,
            width: (geometry.width - 2 * WINDOW_BORDER_WIDTH) as i32,
            height: (geometry.height - 2 * WINDOW_BORDER_WIDTH) as i32,
            border_width: WINDOW_BORDER_WIDTH as i32,
        },
    )
}

/// Return the geometry of a window that is dragged by the mouse: it moves
/// as far as the pointer has moved since the drag began. The new position
/// has to be within the range of the coordinates.
pub fn dragged_position(
    before: Geometry,
    start_x: i32,
    start_y: i32,
    x: i32,
    y: i32,
) -> (geometry: Geometry)
    requires
        i32::MIN <= before.x + (x - start_x) <= i32::MAX,
        i32::MIN <= before.y + (y - start_y) <= i32::MAX,
    ensures
        geometry == (Geometry {
            x: (before.x + (x - start_x)) as i32,
            y: (before.y + (y - start_y)) as i32,
            ..before
        }),
{
    Geometry {
        x: (before.x as i64 + (x as i64 - start_x as i64)) as i32,
        y: (before.y as i64 + (y as i64 - start_y as i64)) as i32,
        width: before.width,
        height: before.height,
    }
}

/// Return the geometry of a window that is resized by the mouse: it grows
/// as far as the pointer has moved since the drag began. The new size has
/// to be one that a geometry can hold.
pub fn dragged_size(
    before: Geometry,
    start_x: i32,
    start_y: i32,
    x: i32,
    y: i32,
) -> (geometry: Geometry)
    requires
        0 <= before.width + (x - start_x) <= u32::MAX,
        0 <= before.height + (y - start_y) <= u32::MAX,
    ensures
        geometry == (Geometry {
            width: (before.width + (x - start_x)) as u32,
            height: (before.height + (y - start_y)) as u32,
            ..before
        }),
{
    Geometry {
        x: before.x,
        y: before.y,
        width: (before.width as i64 + (x as i64 - start_x as i64)) as u32,
        height: (before.height as i64 + (y as i64 - start_y as i64)) as u32,
    }
}

} // verus!
