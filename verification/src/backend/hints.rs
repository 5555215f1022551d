//! The geometry of a new window, and whether it floats.

use vstd::prelude::*;
use crate::types::{FloatOrTile, Geometry, Screen};

verus! {

/// The flag of the size hints that says that the obsolete size is given.
pub const P_SIZE: i64 = 0x0008;

/// The flag of the size hints that says that the minimum size is given.
pub const P_MIN_SIZE: i64 = 0x0010;

/// The flag of the size hints that says that the maximum size is given.
pub const P_MAX_SIZE: i64 = 0x0020;

/// The smallest width and height that a window gets.
pub const SMALLEST_SIZE: u32 = 5;

/// The size hints that an application gives for its window, as far as they
/// are respected: the flags, which say what is given, and the minimum,
/// maximum and obsolete size.
#[derive(Copy, Clone, PartialEq, Eq, Debug, Structural)]
pub struct SizeHints {
    /// The flags that say which of the hints are given.
    pub flags: i64,
    /// The minimum width.
    pub min_width: i32,
    /// The minimum height.
    pub min_height: i32,
    /// The maximum width.
    pub max_width: i32,
    /// The maximum height.
    pub max_height: i32,
    /// The obsolete width.
    pub width: i32,
    /// The obsolete height.
    pub height: i32,
}

/// The signed number `v` read as an unsigned number of the same 32 bits.
pub open spec fn unsigned(v: i32) -> u32 {
    if v < 0 {
        (v + 0x1_0000_0000) as u32
    } else {
        v as u32
    }
}

/// Return the signed number `v` read as an unsigned number of the same 32
/// bits.
pub fn as_unsigned(v: i32) -> (u: u32)
    ensures
        u == unsigned(v),
{
    if v < 0 {
        (v as i64 + 0x1_0000_0000) as u32
    } else {
        v as u32
    }
}

/// Whether a geometry is valid: its width and height are greater than 0 and
/// smaller than half of what an unsigned number can hold.
pub open spec fn is_valid(geometry: Geometry) -> bool {
    &&& 0 < geometry.width < u32::MAX / 2
    &&& 0 < geometry.height < u32::MAX / 2
}

/// Tell whether the geometry is valid: whether its width and height are
/// greater than 0 but not so large that the display server would refuse
/// them.
pub fn valid_geometry(geometry: &Geometry) -> (valid: bool)
    ensures
        valid == is_valid(*geometry),
{
    let max = u32::MAX / 2;
    0 < geometry.width && geometry.width < max && 0 < geometry.height && geometry.height < max
}

/// How far a window of the size `size` is from the border of a screen of
/// the size `room` when it is centered. A window that is larger than the
/// screen starts at the border.
pub open spec fn margin(room: u32, size: u32) -> i32 {
    if size >= room {
        0
    } else {
        ((room - size) / 2) as i32
    }
}

/// The geometry centered on the screen, if it has no position yet: a
/// geometry whose x- and y-coordinate are not both 0 stays where it is.
pub open spec fn centered(geometry: Geometry, screen: Screen) -> Geometry {
    if geometry.x != 0 || geometry.y != 0 {
        geometry
    } else {
        Geometry {
            x: margin(screen.width, geometry.width),
            y: margin(screen.height, geometry.height),
            ..geometry
        }
    }
}

/// Center the window on the screen if its geometry does not give a
/// position: only if the x- and the y-coordinate are 0 is the window moved.
pub fn center_geometry(window_geometry: &mut Geometry, screen: &Screen)
    ensures
        *final(window_geometry) == centered(*old(window_geometry), *screen),
{
    if window_geometry.x != 0 || window_geometry.y != 0 {
        return ;
    }
    let shift_right = if window_geometry.width >= screen.width {
        0
    } else {
        (screen.width - window_geometry.width) / 2
    };
    let shift_down = if window_geometry.height >= screen.height {
        0
    } else {
        (screen.height - window_geometry.height) / 2
    };
    window_geometry.x = shift_right as i32;
    window_geometry.y = shift_down as i32;
}

/// The larger of two sizes.
pub open spec fn larger(a: u32, b: u32) -> u32 {
    if a >= b {
        a
    } else {
        b
    }
}

/// The smaller of two sizes.
pub open spec fn smaller(a: u32, b: u32) -> u32 {
    if a <= b {
        a
    } else {
        b
    }
}

/// The geometry made at least as large as the minimum size, if that is
/// given.
pub open spec fn with_min_size(geometry: Geometry, hints: SizeHints) -> Geometry {
    if hints.flags & P_MIN_SIZE != 0 {
        Geometry {
            width: larger(geometry.width, unsigned(hints.min_width)),
            height: larger(geometry.height, unsigned(hints.min_height)),
            ..geometry
        }
    } else {
        geometry
    }
}

/// The geometry made at most as large as the maximum size, if that is
/// given.
pub open spec fn with_max_size(geometry: Geometry, hints: SizeHints) -> Geometry {
    if hints.flags & P_MAX_SIZE != 0 {
        Geometry {
            width: smaller(geometry.width, unsigned(hints.max_width)),
            height: smaller(geometry.height, unsigned(hints.max_height)),
            ..geometry
        }
    } else {
        geometry
    }
}

/// The geometry with the obsolete size, if that is given: a width and a
/// height that are greater than 0 replace those of the geometry.
pub open spec fn with_size(geometry: Geometry, hints: SizeHints) -> Geometry {
    if hints.flags & P_SIZE != 0 {
        Geometry {
            width: if hints.width > 0 {
                hints.width as u32
            } else {
                geometry.width
            },
            height: if hints.height > 0 {
                hints.height as u32
            } else {
                geometry.height
            },
            ..geometry
        }
    } else {
        geometry
    }
}

/// The geometry made large enough to be seen.
pub open spec fn with_smallest_size(geometry: Geometry) -> Geometry {
    Geometry {
        width: larger(geometry.width, SMALLEST_SIZE),
        height: larger(geometry.height, SMALLEST_SIZE),
        ..geometry
    }
}

/// The geometry after the size hints have been applied: first the minimum
/// size, then the maximum size, then the obsolete size, and at last the
/// smallest size that a window gets.
pub open spec fn respecting(geometry: Geometry, hints: SizeHints) -> Geometry {
    with_smallest_size(with_size(with_max_size(with_min_size(geometry, hints), hints), hints))
}

/// Return the larger of two sizes.
fn max_size(a: u32, b: u32) -> (m: u32)
    ensures
        m == larger(a, b),
{
    if a >= b {
        a
    } else {
        b
    }
}

/// Return the smaller of two sizes.
fn min_size(a: u32, b: u32) -> (m: u32)
    ensures
        m == smaller(a, b),
{
    if a <= b {
        a
    } else {
        b
    }
}

/// Make the geometry respect the size hints. The minimum size, the maximum
/// size and the obsolete size are considered, in this order and as far as
/// they are given. A width or height under 5 pixels becomes 5 pixels, so
/// that the window can be seen. The position stays as it is.
pub fn respect_hints(geometry: &mut Geometry, hints: &SizeHints)
    ensures
        *final(geometry) == respecting(*old(geometry), *hints),
        final(geometry).x == old(geometry).x,
        final(geometry).y == old(geometry).y,
        final(geometry).width >= SMALLEST_SIZE,
        final(geometry).height >= SMALLEST_SIZE,
{
    if hints.flags & P_MIN_SIZE != 0 {
        geometry.width = max_size(geometry.width, as_unsigned(hints.min_width));
        geometry.height = max_size(geometry.height, as_unsigned(hints.min_height));
    }
    if hints.flags & P_MAX_SIZE != 0 {
        geometry.width = min_size(geometry.width, as_unsigned(hints.max_width));
        geometry.height = min_size(geometry.height, as_unsigned(hints.max_height));
    }
    if hints.flags & P_SIZE != 0 {
        if hints.width > 0 {
            geometry.width = hints.width as u32;
        }
        if hints.height > 0 {
            geometry.height = hints.height as u32;
        }
    }
    geometry.width = max_size(geometry.width, SMALLEST_SIZE);
    geometry.height = max_size(geometry.height, SMALLEST_SIZE);
}

/// Whether the size hints fix the size of the window: the minimum and the
/// maximum size are both given and equal.
pub open spec fn fixes_size(hints: SizeHints) -> bool {
    &&& hints.flags & P_MIN_SIZE != 0
    &&& hints.flags & P_MAX_SIZE != 0
    &&& hints.min_width == hints.max_width
    &&& hints.min_height == hints.max_height
}

/// Tell whether a window wants to float or to tile. It floats if it is a
/// dialog, if it is transient for another window, or if its size hints are
/// known and fix its size. Otherwise it tiles.
pub fn wants_to_float_or_tile(
    is_dialog: bool,
    is_transient: bool,
    hints: Option<SizeHints>,
) -> (res: FloatOrTile)
    ensures
        res == if is_dialog || is_transient || (hints.is_some() && fixes_size(hints.unwrap())) {
            FloatOrTile::Float
        } else {
            FloatOrTile::Tile
        },
{
    if is_dialog {
        return FloatOrTile::Float;
    }
    if is_transient {
        return FloatOrTile::Float;
    }
    let is_fixed_size = match hints {
        Some(hints) => hints.flags & P_MIN_SIZE != 0 && hints.flags & P_MAX_SIZE != 0
            && hints.min_width == hints.max_width && hints.min_height == hints.max_height,
        None => false,
    };
    if is_fixed_size {
        FloatOrTile::Float
    } else {
        FloatOrTile::Tile
    }
}

} // verus!
