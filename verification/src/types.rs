//! Basic value types shared by all window managers.

use vstd::prelude::*;

verus! {

/// A window is an identifier issued by the display server. The window
/// managers never create or destroy one, they only keep track of them.
pub type Window = u64;

/// The size of the gap around a tile. It cannot be negative.
pub type GapSize = u32;

/// The index of a workspace.
pub type WorkspaceIndex = usize;

/// The highest workspace index: there are `MAX_WORKSPACE_INDEX + 1`
/// workspaces.
pub const MAX_WORKSPACE_INDEX: WorkspaceIndex = 3;

/// The location and size of a window. The origin is the top-left corner of
/// the screen, the x-axis goes right and the y-axis goes down.
#[derive(Copy, Clone, Debug, PartialEq, Eq, Hash, Structural)]
pub struct Geometry {
    /// X-coordinate of the top-left corner.
    pub x: i32,
    /// Y-coordinate of the top-left corner.
    pub y: i32,
    /// Width of the window.
    pub width: u32,
    /// Height of the window.
    pub height: u32,
}

/// A screen is given by its width and height; its origin is `(0, 0)`.
#[derive(Copy, Clone, Debug, PartialEq, Eq, Hash, Structural)]
pub struct Screen {
    /// Width of the screen.
    pub width: u32,
    /// Height of the screen.
    pub height: u32,
}

impl Screen {
    /// The rectangle that covers the whole screen.
    pub open spec fn spec_to_geometry(self) -> Geometry {
        Geometry { x: 0, y: 0, width: self.width, height: self.height }
    }

    /// Return the geometry of a window that fills the screen.
    pub fn to_geometry(&self) -> (geometry: Geometry)
        ensures
            geometry == self.spec_to_geometry(),
    {
        Geometry { x: 0, y: 0, width: self.width, height: self.height }
    }
}

/// Whether a window floats above the tiles or is one of them.
#[derive(Copy, Clone, Debug, PartialEq, Eq, Hash, Structural)]
pub enum FloatOrTile {
    /// Floating above the tiled windows.
    Float,
    /// Not floating but tiled.
    Tile,
}

/// A window with what is recorded about it: its geometry, whether it floats
/// or tiles, and whether it asked to be shown fullscreen.
#[derive(Copy, Clone, Debug, PartialEq, Eq, Hash, Structural)]
pub struct WindowWithInfo {
    /// The window.
    pub window: Window,
    /// The geometry of the window.
    pub geometry: Geometry,
    /// Whether the window floats or tiles.
    pub float_or_tile: FloatOrTile,
    /// Whether the window wants to be displayed fullscreen.
    pub fullscreen: bool,
}

impl WindowWithInfo {
    /// A tiled window that is not fullscreen.
    pub fn new_tiled(window: Window, geometry: Geometry) -> (info: WindowWithInfo)
        ensures
            info == (WindowWithInfo {
                window,
                geometry,
                float_or_tile: FloatOrTile::Tile,
                fullscreen: false,
            }),
    {
        Self::new(window, geometry, FloatOrTile::Tile, false)
    }

    /// A floating window that is not fullscreen.
    pub fn new_float(window: Window, geometry: Geometry) -> (info: WindowWithInfo)
        ensures
            info == (WindowWithInfo {
                window,
                geometry,
                float_or_tile: FloatOrTile::Float,
                fullscreen: false,
            }),
    {
        Self::new(window, geometry, FloatOrTile::Float, false)
    }

    /// A fullscreen window. It tiles once it stops being fullscreen.
    pub fn new_fullscreen(window: Window, geometry: Geometry) -> (info: WindowWithInfo)
        ensures
            info == (WindowWithInfo {
                window,
                geometry,
                float_or_tile: FloatOrTile::Tile,
                fullscreen: true,
            }),
    {
        Self::new(window, geometry, FloatOrTile::Tile, true)
    }

    /// A window with exactly the given information.
    pub fn new(
        window: Window,
        geometry: Geometry,
        float_or_tile: FloatOrTile,
        fullscreen: bool,
    ) -> (info: WindowWithInfo)
        ensures
            info == (WindowWithInfo { window, geometry, float_or_tile, fullscreen }),
    {
        WindowWithInfo { window, geometry, float_or_tile, fullscreen }
    }
}

/// The windows a window manager wants on the screen.
///
/// `windows` lists the visible windows from the bottom of the stack to the
/// top. The layout of a window manager lists no window twice and only
/// managed windows, and it names as focused only a window that it also
/// lists, see [`WindowLayout::shows_focus`]. A window manager that is
/// taken for a layer of another one may hold windows that it does not
/// show; what its layout says of the focus is then stated for the states
/// in which it shows all of them.
#[derive(Clone, Debug, PartialEq, Eq, Hash)]
pub struct WindowLayout {
    /// The focused window, or `None` when no window is focused.
    pub focused_window: Option<Window>,
    /// The visible windows with their geometry, bottom window first.
    pub windows: Vec<(Window, Geometry)>,
}

impl WindowLayout {
    /// The layout without any window and without focus.
    pub fn new() -> (layout: WindowLayout)
        ensures
            layout.focused_window.is_none(),
            layout.windows@ == Seq::<(Window, Geometry)>::empty(),
    {
        WindowLayout { focused_window: None, windows: Vec::new() }
    }

    /// Whether `window` is one of the visible windows of the layout.
    pub open spec fn shows(&self, window: Window) -> bool {
        lists(self.windows@, window)
    }

    /// Whether the layout places no window twice.
    pub open spec fn shows_each_once(&self) -> bool {
        each_once(self.windows@)
    }

    /// Whether the focused window, if there is one, is one of the visible
    /// windows of the layout.
    pub open spec fn shows_focus(&self) -> bool {
        match self.focused_window {
            Some(f) => self.shows(f),
            None => true,
        }
    }
}

/// Whether `windows` places no window twice.
pub open spec fn each_once(windows: Seq<(Window, Geometry)>) -> bool {
    forall|i: int, j: int|
        0 <= i < j < windows.len() ==> (#[trigger] windows[i]).0 != (#[trigger] windows[j]).0
}

/// Whether `window` is one of the windows that `windows` places.
pub open spec fn lists(windows: Seq<(Window, Geometry)>, window: Window) -> bool {
    exists|i: int| 0 <= i < windows.len() && (#[trigger] windows[i]).0 == window
}

/// A direction in a circular order: towards the previous or the next item.
#[derive(Copy, Clone, Debug, PartialEq, Eq, Hash, Structural)]
pub enum PrevOrNext {
    /// Previous
    Prev,
    /// Next
    Next,
}

impl PrevOrNext {
    /// The other direction.
    pub open spec fn spec_opposite(self) -> PrevOrNext {
        match self {
            PrevOrNext::Prev => PrevOrNext::Next,
            PrevOrNext::Next => PrevOrNext::Prev,
        }
    }

    /// Return the opposite direction: `Next` for `Prev` and `Prev` for `Next`.
    pub fn opposite(&self) -> (other: PrevOrNext)
        ensures
            other == self.spec_opposite(),
            other != *self,
    {
        match *self {
            PrevOrNext::Prev => PrevOrNext::Next,
            PrevOrNext::Next => PrevOrNext::Prev,
        }
    }

    /// Turning round twice gives the direction one started with.
    pub proof fn lemma_opposite_twice(self)
        ensures
            self.spec_opposite().spec_opposite() == self,
    {
    }
}

} // verus!
