//! The tiling window manager.
//!
//! The first tile, the master tile, takes the left half of the screen. The
//! other tiles share the right half, stacked from top to bottom in slices of
//! equal height. A single tile takes the whole screen.

use std::collections::HashMap;
use vstd::prelude::*;
use crate::order::{
    has_no_duplicates, holds, lemma_push, lemma_rotated, lemma_same_keys, lemma_swapped,
    lemma_to_back, lemma_without, lemma_without_at, neighbour, next_place, position, rotate,
    rotated, send_to_back, swap, swapped, take_out, to_back, without,
};
use crate::types::{
    FloatOrTile, Geometry, lists, PrevOrNext, Screen, Window, WindowLayout, WindowWithInfo,
};
use crate::wm::{TilingSupport, WindowManager};
use crate::wm_error::WMError;

verus! {

broadcast use vstd::std_specs::hash::group_hash_axioms;

/// The geometry of the tile at place `i` when the screen is shared by `n`
/// tiles.
pub open spec fn tile_geometry(screen: Screen, n: int, i: int) -> Geometry {
    if n <= 1 {
        screen.spec_to_geometry()
    } else if i == 0 {
        Geometry { x: 0, y: 0, width: screen.width / 2, height: screen.height }
    } else {
        Geometry {
            x: (screen.width / 2) as i32,
            y: ((i - 1) * (screen.height as int / (n - 1))) as i32,
            width: screen.width / 2,
            height: (screen.height as int / (n - 1)) as u32,
        }
    }
}

/// Whether the offset of every one of `n` tiles fits the signed coordinate
/// of a geometry. It does on every screen that is not higher than
/// `i32::MAX`, see [`lemma_offsets_fit`].
pub open spec fn offsets_fit(screen: Screen, n: int) -> bool {
    n >= 2 ==> (n - 2) * (screen.height as int / (n - 1)) <= i32::MAX
}

/// The offsets of the tiles fit whenever the height of the screen does.
pub proof fn lemma_offsets_fit(screen: Screen, n: int)
    requires
        screen.height <= i32::MAX,
    ensures
        offsets_fit(screen, n),
{
    if n >= 2 {
        let h = screen.height as int;
        let d = n - 1;
        assert((d - 1) * (h / d) <= h) by (nonlinear_arith)
            requires
                d >= 1,
                h >= 0,
        ;
    }
}

/// The state of a tiling window manager.
pub struct TilingState {
    /// The managed windows in focus order: the last one is the window that
    /// has the focus, if any has.
    pub windows: Seq<Window>,
    /// What is recorded about each managed window.
    pub info: Map<Window, WindowWithInfo>,
    /// The tiles. The first one is the master tile.
    pub tiles: Seq<Window>,
    /// The screen that the tiles share.
    pub screen: Screen,
    /// Whether the last window of the focus order has the focus.
    pub is_focus: bool,
}

impl TilingState {
    /// The state of a window manager without windows.
    pub open spec fn start(screen: Screen) -> TilingState {
        TilingState {
            windows: Seq::empty(),
            info: Map::empty(),
            tiles: Seq::empty(),
            screen,
            is_focus: false,
        }
    }

    /// The state is well-formed: no window occurs twice, something is
    /// recorded about exactly the managed windows, and every tile is a
    /// managed window.
    pub open spec fn wf(self) -> bool {
        &&& self.windows.no_duplicates()
        &&& self.tiles.no_duplicates()
        &&& forall|w: Window| #[trigger] self.info.contains_key(w) <==> self.windows.contains(w)
        &&& forall|w: Window| #[trigger]
            self.info.contains_key(w) ==> self.info[w].window == w
        &&& forall|w: Window| #[trigger] self.tiles.contains(w) ==> self.windows.contains(w)
        &&& self.is_focus ==> self.windows.len() > 0
    }

    /// Every managed window is a tile. A tiling window manager on its own
    /// keeps it so; the layers that are built on it take windows out of the
    /// tiles to float or to hide them.
    pub open spec fn all_tiled(self) -> bool {
        forall|w: Window| self.windows.contains(w) ==> #[trigger] self.tiles.contains(w)
    }

    /// Whether `w` is managed.
    pub open spec fn is_managed(self, w: Window) -> bool {
        self.windows.contains(w)
    }

    /// The focused window.
    pub open spec fn focused(self) -> Option<Window> {
        if self.is_focus && self.windows.len() > 0 {
            Some(self.windows.last())
        } else {
            None
        }
    }

    /// The window in the master tile.
    pub open spec fn master(self) -> Option<Window> {
        if self.tiles.len() > 0 {
            Some(self.tiles.first())
        } else {
            None
        }
    }

    /// Whether the layout of the tiles can be written down with signed
    /// offsets.
    pub open spec fn layout_fits(self) -> bool {
        offsets_fit(self.screen, self.tiles.len() as int)
    }

    /// The tiles with their geometry, master tile first.
    pub open spec fn layout_windows(self) -> Seq<(Window, Geometry)> {
        Seq::new(
            self.tiles.len(),
            |i: int| (self.tiles[i], tile_geometry(self.screen, self.tiles.len() as int, i)),
        )
    }

    /// What the window manager says about the managed window `w`: a tile
    /// with the geometry of its tile, or else what is recorded about it.
    pub open spec fn window_info(self, w: Window) -> WindowWithInfo {
        if self.tiles.contains(w) {
            WindowWithInfo {
                window: w,
                geometry: tile_geometry(
                    self.screen,
                    self.tiles.len() as int,
                    self.tiles.index_of(w),
                ),
                float_or_tile: FloatOrTile::Tile,
                fullscreen: false,
            }
        } else {
            self.info[w]
        }
    }

    /// The state after the unmanaged window of `info` has been added. The
    /// window gets the focus and the last tile, whatever is recorded about
    /// it.
    pub open spec fn add_window(self, info: WindowWithInfo) -> TilingState {
        TilingState {
            windows: self.windows.push(info.window),
            info: self.info.insert(info.window, info),
            tiles: self.tiles.push(info.window),
            screen: self.screen,
            is_focus: true,
        }
    }

    /// The state after the window `w` has been removed. The focus, if there
    /// is one, is on the last window that remains.
    pub open spec fn remove_window(self, w: Window) -> TilingState {
        TilingState {
            windows: without(self.windows, w),
            info: self.info.remove(w),
            tiles: without(self.tiles, w),
            screen: self.screen,
            is_focus: self.is_focus && without(self.windows, w).len() > 0,
        }
    }

    /// The state after the focus has gone to the managed window `w`.
    pub open spec fn focus(self, w: Window) -> TilingState {
        TilingState { windows: to_back(self.windows, w), is_focus: true, ..self }
    }

    /// The state after the focus has been taken away.
    pub open spec fn unfocus(self) -> TilingState {
        TilingState { is_focus: false, ..self }
    }

    /// The state after the focus has moved to the previous or next window.
    pub open spec fn cycle_focus(self, dir: PrevOrNext) -> TilingState {
        if self.windows.len() == 0 {
            self
        } else {
            TilingState { windows: rotated(self.windows, dir), is_focus: true, ..self }
        }
    }

    /// The state after `w` has been exchanged with the master window and
    /// focused. A managed window that is no tile leaves the state as it is.
    pub open spec fn swap_with_master(self, w: Window) -> TilingState {
        if self.tiles.contains(w) {
            TilingState {
                tiles: swapped(self.tiles, 0, self.tiles.index_of(w)),
                ..self
            }.focus(w)
        } else {
            self
        }
    }

    /// The state after the tile of the focused window has been exchanged
    /// with its neighbour. Two tiles are exchanged whichever window has the
    /// focus.
    pub open spec fn swap_windows(self, dir: PrevOrNext) -> TilingState {
        match self.focused() {
            None => self,
            Some(f) => {
                let n = self.tiles.len() as int;
                if n == 2 {
                    TilingState { tiles: swapped(self.tiles, 0, 1), ..self }
                } else if self.tiles.contains(f) {
                    let i = self.tiles.index_of(f);
                    TilingState { tiles: swapped(self.tiles, i, neighbour(i, n, dir)), ..self }
                } else {
                    self
                }
            },
        }
    }

    /// The state after the screen has changed.
    pub open spec fn resize_screen(self, screen: Screen) -> TilingState {
        TilingState { screen, ..self }
    }

    /// Adding an unmanaged window keeps the state well-formed, and the
    /// window is managed, focused and the last tile afterwards.
    pub proof fn lemma_add_window(self, info: WindowWithInfo)
        requires
            self.wf(),
            !self.is_managed(info.window),
        ensures
            self.add_window(info).wf(),
            self.add_window(info).is_managed(info.window),
            self.add_window(info).focused() == Some(info.window),
            !self.tiles.contains(info.window),
            forall|w: Window| #[trigger]
                self.add_window(info).windows.contains(w) <==> self.windows.contains(w) || w
                    == info.window,
            forall|w: Window| #[trigger]
                self.add_window(info).tiles.contains(w) <==> self.tiles.contains(w) || w
                    == info.window,
            self.all_tiled() ==> self.add_window(info).all_tiled(),
    {
        lemma_push(self.windows, info.window);
        if self.tiles.contains(info.window) {
            assert(self.windows.contains(info.window));
        }
        lemma_push(self.tiles, info.window);
    }

    /// Removing a window keeps the state well-formed, and exactly that
    /// window is no longer managed.
    pub proof fn lemma_remove_window(self, w: Window)
        requires
            self.wf(),
        ensures
            self.remove_window(w).wf(),
            !self.remove_window(w).is_managed(w),
            forall|x: Window| #[trigger]
                self.remove_window(w).windows.contains(x) <==> self.windows.contains(x) && x != w,
            forall|x: Window| #[trigger]
                self.remove_window(w).tiles.contains(x) <==> self.tiles.contains(x) && x != w,
            !self.is_managed(w) ==> self.remove_window(w) == self,
            self.focused().is_some() && self.focused() != Some(w) ==> self.remove_window(
                w,
            ).focused() == self.focused(),
            self.all_tiled() ==> self.remove_window(w).all_tiled(),
    {
        lemma_without(self.windows, w);
        lemma_without(self.tiles, w);
        if self.focused().is_some() && self.focused() != Some(w) {
            crate::order::lemma_without_keeps_last(self.windows, w);
        }
        let t = self.remove_window(w);
        if !self.is_managed(w) {
            assert(!self.info.contains_key(w));
            assert(!self.tiles.contains(w));
            assert(t.info =~= self.info);
            assert(t == self);
        }
    }

    /// Focusing a managed window keeps the state well-formed and the same
    /// windows managed, and gives that window the focus.
    pub proof fn lemma_focus(self, w: Window)
        requires
            self.wf(),
            self.is_managed(w),
        ensures
            self.focus(w).wf(),
            self.focus(w).focused() == Some(w),
            forall|x: Window| #[trigger]
                self.focus(w).windows.contains(x) <==> self.windows.contains(x),
            self.focused() == Some(w) ==> self.focus(w) == self,
            self.all_tiled() ==> self.focus(w).all_tiled(),
    {
        lemma_to_back(self.windows, w);
    }

    /// Moving the focus keeps the state well-formed and the same windows
    /// managed, and moving it back restores the focus order.
    pub proof fn lemma_cycle_focus(self, dir: PrevOrNext)
        requires
            self.wf(),
        ensures
            self.cycle_focus(dir).wf(),
            forall|x: Window| #[trigger]
                self.cycle_focus(dir).windows.contains(x) <==> self.windows.contains(x),
            self.windows.len() > 0 ==> self.cycle_focus(dir).focused().is_some(),
            self.cycle_focus(dir).cycle_focus(dir.spec_opposite()).windows == self.windows,
            self.all_tiled() ==> self.cycle_focus(dir).all_tiled(),
    {
        lemma_rotated(self.windows, dir);
    }

    /// Swapping with the master keeps the state well-formed. A tile that is
    /// swapped is the master and has the focus afterwards.
    pub proof fn lemma_swap_with_master(self, w: Window)
        requires
            self.wf(),
            self.is_managed(w),
        ensures
            self.swap_with_master(w).wf(),
            forall|x: Window| #[trigger]
                self.swap_with_master(w).windows.contains(x) <==> self.windows.contains(x),
            forall|x: Window| #[trigger]
                self.swap_with_master(w).tiles.contains(x) <==> self.tiles.contains(x),
            self.tiles.contains(w) ==> self.swap_with_master(w).master() == Some(w)
                && self.swap_with_master(w).focused() == Some(w),
            self.all_tiled() ==> self.swap_with_master(w).all_tiled(),
    {
        if self.tiles.contains(w) {
            let i = self.tiles.index_of(w);
            lemma_swapped(self.tiles, 0, i);
            let t = TilingState { tiles: swapped(self.tiles, 0, i), ..self };
            assert(t.wf());
            t.lemma_focus(w);
        }
    }

    /// Swapping the focused tile with a neighbour keeps the state
    /// well-formed, the same windows tiled and the focus where it is.
    pub proof fn lemma_swap_windows(self, dir: PrevOrNext)
        requires
            self.wf(),
        ensures
            self.swap_windows(dir).wf(),
            self.swap_windows(dir).windows == self.windows,
            self.swap_windows(dir).focused() == self.focused(),
            self.swap_windows(dir).tiles.len() == self.tiles.len(),
            forall|x: Window| #[trigger]
                self.swap_windows(dir).tiles.contains(x) <==> self.tiles.contains(x),
            self.all_tiled() ==> self.swap_windows(dir).all_tiled(),
    {
        match self.focused() {
            None => {},
            Some(f) => {
                let n = self.tiles.len() as int;
                if n == 2 {
                    lemma_swapped(self.tiles, 0, 1);
                } else if self.tiles.contains(f) {
                    let i = self.tiles.index_of(f);
                    lemma_swapped(self.tiles, i, neighbour(i, n, dir));
                }
            },
        }
    }
}

impl TilingState {
    /// The layout places exactly the tiles.
    pub proof fn lemma_layout_lists_tiles(self, w: Window)
        ensures
            lists(self.layout_windows(), w) <==> self.tiles.contains(w),
    {
        let layout = self.layout_windows();
        if lists(layout, w) {
            let i = choose|i: int| 0 <= i < layout.len() && (#[trigger] layout[i]).0 == w;
            assert(self.tiles[i] == w);
        }
        if self.tiles.contains(w) {
            let i = choose|i: int| 0 <= i < self.tiles.len() && self.tiles[i] == w;
            assert(layout[i].0 == w);
        }
    }

    /// While every managed window is a tile, the layout places exactly the
    /// managed windows, none of them twice, and the focused window is one
    /// of them.
    pub proof fn lemma_layout_lists(self, w: Window)
        requires
            self.wf(),
        ensures
            forall|i: int, j: int|
                0 <= i < j < self.layout_windows().len() ==> (#[trigger] self.layout_windows()[i]).0
                    != (#[trigger] self.layout_windows()[j]).0,
            lists(self.layout_windows(), w) ==> self.is_managed(w),
            self.all_tiled() ==> (lists(self.layout_windows(), w) <==> self.is_managed(w)),
            self.all_tiled() && self.focused() == Some(w) ==> lists(self.layout_windows(), w),
    {
        self.lemma_layout_lists_tiles(w);
        if self.focused() == Some(w) {
            assert(self.windows[self.windows.len() - 1] == w);
            assert(self.windows.contains(w));
        }
        assert forall|i: int, j: int| 0 <= i < j < self.layout_windows().len() implies (
        #[trigger] self.layout_windows()[i]).0 != (#[trigger] self.layout_windows()[j]).0 by {
            assert(self.tiles[i] != self.tiles[j]);
        }
    }

    /// Swapping the focused tile with its neighbour on one side and then
    /// with its neighbour on the other side restores the state, and with it
    /// the layout.
    pub proof fn lemma_swap_windows_back(self, dir: PrevOrNext)
        requires
            self.wf(),
        ensures
            self.swap_windows(dir).swap_windows(dir.spec_opposite()) == self,
            self.swap_windows(dir).swap_windows(dir.spec_opposite()).layout_windows()
                == self.layout_windows(),
            self.swap_windows(dir).swap_windows(dir.spec_opposite()).focused() == self.focused(),
    {
        self.lemma_swap_windows(dir);
        let t = self.swap_windows(dir);
        let back = dir.spec_opposite();
        match self.focused() {
            None => {},
            Some(f) => {
                let n = self.tiles.len() as int;
                if n == 2 {
                    lemma_swapped(self.tiles, 0, 1);
                    assert(t.swap_windows(back).tiles == self.tiles);
                } else if self.tiles.contains(f) {
                    let i = self.tiles.index_of(f);
                    let j = neighbour(i, n, dir);
                    crate::order::lemma_neighbour(i, n, dir);
                    lemma_swapped(self.tiles, i, j);
                    assert(t.tiles[j] == f);
                    lemma_without_at(t.tiles, j);
                    assert(t.tiles.contains(f));
                    assert(t.tiles.index_of(f) == j);
                    lemma_swapped(t.tiles, j, i);
                    assert(t.swap_windows(back).tiles == self.tiles);
                } else {
                    assert(!t.tiles.contains(f));
                }
            },
        }
        assert(t.swap_windows(back) =~= self);
    }
}

/// A window manager that tiles its windows.
#[derive(Clone, Debug)]
pub struct TilingWM {
    /// The managed windows in focus order: the last one is the window that
    /// has the focus, if any has.
    pub windows: Vec<Window>,
    /// What is recorded about each managed window.
    pub windows_info: HashMap<Window, WindowWithInfo>,
    /// The tiles. The first one is the master tile.
    pub tiles: Vec<Window>,
    /// The screen that the tiles share.
    pub screen: Screen,
    /// Whether the last window of the focus order has the focus.
    pub is_focus: bool,
}

impl View for TilingWM {
    type V = TilingState;

    open spec fn view(&self) -> TilingState {
        TilingState {
            windows: self.windows@,
            info: self.windows_info@,
            tiles: self.tiles@,
            screen: self.screen,
            is_focus: self.is_focus,
        }
    }
}

impl TilingWM {
    /// A window manager without windows for the given screen.
    pub fn new(screen: Screen) -> (wm: TilingWM)
        ensures
            wm@ == TilingState::start(screen),
            wm@.wf(),
            wm@.all_tiled(),
    {
        TilingWM {
            windows: Vec::new(),
            windows_info: HashMap::new(),
            tiles: Vec::new(),
            screen,
            is_focus: false,
        }
    }

    /// Tell whether the window manager is well-formed. A window manager
    /// that was made by `new` and changed by its operations is; one that
    /// was put together from parts has to be checked.
    pub fn is_valid(&self) -> (valid: bool)
        ensures
            valid == self@.wf(),
    {
        if !has_no_duplicates(&self.windows) || !has_no_duplicates(&self.tiles) {
            return false;
        }
        let mut i: usize = 0;
        while i < self.windows.len()
            invariant
                i <= self.windows@.len(),
                forall|k: int|
                    0 <= k < i ==> self@.info.contains_key(#[trigger] self@.windows[k])
                        && self@.info[self@.windows[k]].window == self@.windows[k],
            decreases self.windows@.len() - i,
        {
            assert(self@.windows.contains(self@.windows[i as int]));
            match self.windows_info.get(&self.windows[i]) {
                None => {
                    return false;
                },
                Some(info) => {
                    if info.window != self.windows[i] {
                        return false;
                    }
                },
            }
            i = i + 1;
        }
        proof {
            assert forall|w: Window| self@.windows.contains(w) implies #[trigger] self@.info.dom().contains(
                w,
            ) by {
                let k = choose|k: int| 0 <= k < self@.windows.len() && self@.windows[k] == w;
                assert(self@.info.contains_key(self@.windows[k]));
            }
            lemma_same_keys(self@.windows, self@.info.dom());
        }
        if self.windows_info.len() != self.windows.len() {
            return false;
        }
        proof {
            assert forall|w: Window| #[trigger]
                self@.info.contains_key(w) implies self@.info[w].window == w by {
                assert(self@.info.dom().contains(w));
                assert(self@.windows.contains(w));
                let k = choose|k: int| 0 <= k < self@.windows.len() && self@.windows[k] == w;
                assert(self@.info.contains_key(self@.windows[k]));
            }
        }
        let mut j: usize = 0;
        while j < self.tiles.len()
            invariant
                j <= self.tiles@.len(),
                forall|w: Window| #[trigger]
                    self@.info.contains_key(w) <==> self@.windows.contains(w),
                forall|k: int| 0 <= k < j ==> self@.windows.contains(#[trigger] self@.tiles[k]),
            decreases self.tiles@.len() - j,
        {
            assert(self@.tiles.contains(self@.tiles[j as int]));
            if !holds(&self.windows, self.tiles[j]) {
                return false;
            }
            j = j + 1;
        }
        proof {
            assert forall|w: Window| #[trigger]
                self@.tiles.contains(w) implies self@.windows.contains(w) by {
                let k = choose|k: int| 0 <= k < self@.tiles.len() && self@.tiles[k] == w;
                assert(self@.windows.contains(self@.tiles[k]));
            }
        }
        !self.is_focus || self.windows.len() > 0
    }

    /// Tell whether every managed window is a tile.
    pub fn shows_all(&self) -> (all: bool)
        ensures
            all == self@.all_tiled(),
    {
        let mut i: usize = 0;
        while i < self.windows.len()
            invariant
                i <= self.windows@.len(),
                forall|k: int| 0 <= k < i ==> self@.tiles.contains(#[trigger] self@.windows[k]),
            decreases self.windows@.len() - i,
        {
            assert(self@.windows.contains(self@.windows[i as int]));
            if !holds(&self.tiles, self.windows[i]) {
                assert(!self@.tiles.contains(self@.windows[i as int]));
                return false;
            }
            i = i + 1;
        }
        assert forall|w: Window| self@.windows.contains(w) implies #[trigger] self@.tiles.contains(
            w,
        ) by {
            let k = choose|k: int| 0 <= k < self@.windows.len() && self@.windows[k] == w;
            assert(self@.tiles.contains(self@.windows[k]));
        }
        true
    }

    /// Tell whether the layout can be written down: whether the offsets of
    /// all tiles fit the signed coordinates of a geometry.
    pub fn can_lay_out(&self) -> (fits: bool)
        ensures
            fits == self@.layout_fits(),
    {
        let n = self.tiles.len();
        if n < 2 {
            return true;
        }
        let slices: u64 = (n - 1) as u64;
        let height: u64 = self.screen.height as u64 / slices;
        if height == 0 {
            assert((n - 2) * 0 == 0);
            return true;
        }
        assert(slices <= self.screen.height) by (nonlinear_arith)
            requires
                height == self.screen.height as int / slices as int,
                height >= 1,
                slices >= 1,
        ;
        assert((slices - 1) * height <= 0xffff_ffff * 0xffff_ffff) by (nonlinear_arith)
            requires
                1 <= slices <= 0xffff_ffff,
                0 <= height <= 0xffff_ffff,
        ;
        (slices - 1) * height <= 0x7fff_ffff
    }

    /// Return the managed windows in focus order.
    pub fn get_windows(&self) -> (windows: Vec<Window>)
        ensures
            windows@ == self@.windows,
    {
        self.windows.clone()
    }

    /// Tell whether `window` is managed: whether `get_windows` lists it.
    pub fn is_managed(&self, window: Window) -> (managed: bool)
        ensures
            managed == self@.is_managed(window),
            managed == self@.windows.contains(window),
    {
        holds(&self.windows, window)
    }

    /// Return the focused window, if there is one.
    pub fn get_focused_window(&self) -> (focused: Option<Window>)
        ensures
            focused == self@.focused(),
    {
        if self.is_focus && self.windows.len() > 0 {
            Some(self.windows[self.windows.len() - 1])
        } else {
            None
        }
    }

    /// Add a window, give it the last tile and focus it. A window that is
    /// already managed is refused.
    pub fn add_window(&mut self, window_with_info: WindowWithInfo) -> (res: Result<(), WMError>)
        requires
            old(self)@.wf(),
        ensures
            final(self)@.wf(),
            old(self)@.all_tiled() ==> final(self)@.all_tiled(),
            match res {
                Ok(_) => {
                    &&& !old(self)@.is_managed(window_with_info.window)
                    &&& final(self)@ == old(self)@.add_window(window_with_info)
                    &&& final(self)@.is_managed(window_with_info.window)
                    &&& final(self)@.focused() == Some(window_with_info.window)
                },
                Err(e) => {
                    &&& old(self)@.is_managed(window_with_info.window)
                    &&& e == WMError::AlreadyManagedWindow(window_with_info.window)
                    &&& final(self)@ == old(self)@
                },
            },
    {
        if holds(&self.windows, window_with_info.window) {
            return Err(WMError::AlreadyManagedWindow(window_with_info.window));
        }
        proof {
            self@.lemma_add_window(window_with_info);
        }
        self.windows.push(window_with_info.window);
        self.windows_info.insert(window_with_info.window, window_with_info);
        self.tiles.push(window_with_info.window);
        self.is_focus = true;
        Ok(())
    }

    /// Remove a window from the focus order and from the tiles. When the
    /// master window goes, the next tile becomes the master tile. A window
    /// that is not managed is refused.
    pub fn remove_window(&mut self, window: Window) -> (res: Result<(), WMError>)
        requires
            old(self)@.wf(),
        ensures
            final(self)@.wf(),
            old(self)@.all_tiled() ==> final(self)@.all_tiled(),
            match res {
                Ok(_) => {
                    &&& old(self)@.is_managed(window)
                    &&& final(self)@ == old(self)@.remove_window(window)
                    &&& !final(self)@.is_managed(window)
                },
                Err(e) => {
                    &&& !old(self)@.is_managed(window)
                    &&& e == WMError::UnknownWindow(window)
                    &&& final(self)@ == old(self)@
                },
            },
    {
        if !holds(&self.windows, window) {
            return Err(WMError::UnknownWindow(window));
        }
        proof {
            self@.lemma_remove_window(window);
        }
        take_out(&mut self.windows, window);
        self.windows_info.remove(&window);
        take_out(&mut self.tiles, window);
        if self.windows.len() == 0 {
            self.is_focus = false;
        }
        Ok(())
    }

    /// Return the geometry of the tile at place `i`.
    pub fn geometry_of_tile(&self, i: usize) -> (geometry: Geometry)
        requires
            i < self@.tiles.len(),
            self@.layout_fits(),
        ensures
            geometry == tile_geometry(self@.screen, self@.tiles.len() as int, i as int),
    {
        let n = self.tiles.len();
        if n <= 1 {
            self.screen.to_geometry()
        } else if i == 0 {
            Geometry { x: 0, y: 0, width: self.screen.width / 2, height: self.screen.height }
        } else {
            let slices: u64 = (n - 1) as u64;
            let height: u64 = self.screen.height as u64 / slices;
            assert(height <= self.screen.height) by (nonlinear_arith)
                requires
                    height == self.screen.height as int / slices as int,
                    slices >= 1,
            ;
            assert((i - 1) * height <= (n - 2) * height) by (nonlinear_arith)
                requires
                    1 <= i <= n - 1,
                    height >= 0,
            ;
            let y: u64 = (i as u64 - 1) * height;
            Geometry {
                x: (self.screen.width / 2) as i32,
                y: y as i32,
                width: self.screen.width / 2,
                height: height as u32,
            }
        }
    }

    /// Return the layout: the master tile on the left half of the screen,
    /// the other tiles in equal slices of the right half, and the focused
    /// window. A single tile takes the whole screen.
    pub fn get_window_layout(&self) -> (layout: WindowLayout)
        requires
            self@.wf(),
            self@.layout_fits(),
        ensures
            layout.focused_window == self@.focused(),
            layout.windows@ == self@.layout_windows(),
            layout.shows_each_once(),
            forall|w: Window| #[trigger] layout.shows(w) <==> self@.tiles.contains(w),
            self@.all_tiled() ==> layout.shows_focus(),
            self@.all_tiled() ==> forall|w: Window| #[trigger]
                layout.shows(w) <==> self@.is_managed(w),
    {
        proof {
            self@.lemma_layout_lists(0);
            assert forall|w: Window| #[trigger]
                lists(self@.layout_windows(), w) <==> self@.tiles.contains(w) by {
                self@.lemma_layout_lists_tiles(w);
            }
            match self@.focused() {
                Some(f) => {
                    self@.lemma_layout_lists(f);
                },
                None => {},
            }
        }
        let mut windows: Vec<(Window, Geometry)> = Vec::new();
        let mut i: usize = 0;
        while i < self.tiles.len()
            invariant
                i <= self.tiles@.len(),
                self@.layout_fits(),
                windows@.len() == i,
                forall|k: int|
                    0 <= k < i ==> windows@[k] == (
                        self@.tiles[k],
                        tile_geometry(self@.screen, self@.tiles.len() as int, k),
                    ),
            decreases self.tiles@.len() - i,
        {
            let geometry = self.geometry_of_tile(i);
            windows.push((self.tiles[i], geometry));
            i = i + 1;
        }
        assert(windows@ =~= self@.layout_windows());
        WindowLayout { focused_window: self.get_focused_window(), windows }
    }

    /// Focus the given window, or take the focus away when given `None`. A
    /// window that is not managed is refused.
    pub fn focus_window(&mut self, window: Option<Window>) -> (res: Result<(), WMError>)
        requires
            old(self)@.wf(),
        ensures
            final(self)@.wf(),
            old(self)@.all_tiled() ==> final(self)@.all_tiled(),
            match window {
                None => res.is_ok() && final(self)@ == old(self)@.unfocus(),
                Some(w) => match res {
                    Ok(_) => {
                        &&& old(self)@.is_managed(w)
                        &&& final(self)@ == old(self)@.focus(w)
                    },
                    Err(e) => {
                        &&& !old(self)@.is_managed(w)
                        &&& e == WMError::UnknownWindow(w)
                        &&& final(self)@ == old(self)@
                    },
                },
            },
            res.is_ok() ==> final(self)@.focused() == window,
    {
        match window {
            None => {
                self.is_focus = false;
                Ok(())
            },
            Some(w) => {
                if !holds(&self.windows, w) {
                    return Err(WMError::UnknownWindow(w));
                }
                proof {
                    self@.lemma_focus(w);
                }
                send_to_back(&mut self.windows, w);
                self.is_focus = true;
                Ok(())
            },
        }
    }

    /// Focus the previous or the next window of the focus order, seen as a
    /// circle. Without windows nothing happens.
    pub fn cycle_focus(&mut self, dir: PrevOrNext)
        requires
            old(self)@.wf(),
        ensures
            final(self)@.wf(),
            old(self)@.all_tiled() ==> final(self)@.all_tiled(),
            final(self)@ == old(self)@.cycle_focus(dir),
    {
        proof {
            self@.lemma_cycle_focus(dir);
        }
        if self.windows.len() == 0 {
            return ;
        }
        rotate(&mut self.windows, dir);
        self.is_focus = true;
    }

    /// Return what the window manager knows about a window: for a tile its
    /// place on the screen, for another managed window what is recorded
    /// about it. A window that is not managed is refused.
    pub fn get_window_info(&self, window: Window) -> (res: Result<WindowWithInfo, WMError>)
        requires
            self@.wf(),
            self@.tiles.contains(window) ==> self@.layout_fits(),
        ensures
            match res {
                Ok(info) => self@.is_managed(window) && info == self@.window_info(window),
                Err(e) => !self@.is_managed(window) && e == WMError::UnknownWindow(window),
            },
    {
        if !holds(&self.windows, window) {
            return Err(WMError::UnknownWindow(window));
        }
        match position(&self.tiles, window) {
            Some(i) => {
                let geometry = self.geometry_of_tile(i);
                Ok(WindowWithInfo::new_tiled(window, geometry))
            },
            None => {
                assert(self@.info.contains_key(window));
                match self.windows_info.get(&window) {
                    Some(info) => Ok(*info),
                    None => Err(WMError::UnknownWindow(window)),
                }
            },
        }
    }

    /// Return the screen.
    pub fn get_screen(&self) -> (screen: Screen)
        ensures
            screen == self@.screen,
    {
        self.screen
    }

    /// Take note of a new screen.
    pub fn resize_screen(&mut self, screen: Screen)
        ensures
            final(self)@ == old(self)@.resize_screen(screen),
            old(self)@.wf() ==> final(self)@.wf(),
            old(self)@.all_tiled() ==> final(self)@.all_tiled(),
    {
        self.screen = screen;
        assert(self@.windows == old(self)@.windows);
        assert(self@.tiles == old(self)@.tiles);
    }

    /// Return the window in the master tile, if there is a tile.
    pub fn get_master_window(&self) -> (master: Option<Window>)
        ensures
            master == self@.master(),
    {
        if self.tiles.len() > 0 {
            Some(self.tiles[0])
        } else {
            None
        }
    }

    /// Exchange the given window with the master window and focus it. A
    /// managed window that is no tile stays where it is. A window that is
    /// not managed is refused.
    pub fn swap_with_master(&mut self, window: Window) -> (res: Result<(), WMError>)
        requires
            old(self)@.wf(),
        ensures
            final(self)@.wf(),
            old(self)@.all_tiled() ==> final(self)@.all_tiled(),
            match res {
                Ok(_) => {
                    &&& old(self)@.is_managed(window)
                    &&& final(self)@ == old(self)@.swap_with_master(window)
                    &&& old(self)@.tiles.contains(window) ==> final(self)@.master() == Some(
                        window,
                    ) && final(self)@.focused() == Some(window)
                },
                Err(e) => {
                    &&& !old(self)@.is_managed(window)
                    &&& e == WMError::UnknownWindow(window)
                    &&& final(self)@ == old(self)@
                },
            },
    {
        if !holds(&self.windows, window) {
            return Err(WMError::UnknownWindow(window));
        }
        proof {
            self@.lemma_swap_with_master(window);
        }
        match position(&self.tiles, window) {
            None => Ok(()),
            Some(i) => {
                swap(&mut self.tiles, 0, i);
                send_to_back(&mut self.windows, window);
                self.is_focus = true;
                Ok(())
            },
        }
    }

    /// Exchange the tile of the focused window with the previous or the
    /// next tile, the tiles seen as a circle. Nothing happens without focus
    /// or when the focused window is no tile, except that two tiles are
    /// always exchanged.
    pub fn swap_windows(&mut self, dir: PrevOrNext)
        requires
            old(self)@.wf(),
        ensures
            final(self)@.wf(),
            old(self)@.all_tiled() ==> final(self)@.all_tiled(),
            final(self)@ == old(self)@.swap_windows(dir),
            final(self)@.focused() == old(self)@.focused(),
    {
        proof {
            self@.lemma_swap_windows(dir);
        }
        match self.get_focused_window() {
            None => {},
            Some(focused) => {
                let n = self.tiles.len();
                if n == 2 {
                    swap(&mut self.tiles, 0, 1);
                } else {
                    match position(&self.tiles, focused) {
                        None => {},
                        Some(i) => {
                            let j = next_place(i, n, dir);
                            swap(&mut self.tiles, i, j);
                        },
                    }
                }
            },
        }
    }
}

impl WindowManager for TilingWM {
    type Error = WMError;

    open spec fn wf(&self) -> bool {
        self@.wf() && self@.all_tiled()
    }

    open spec fn managed(&self) -> Seq<Window> {
        self@.windows
    }

    open spec fn focus(&self) -> Option<Window> {
        self@.focused()
    }

    open spec fn screen(&self) -> Screen {
        self@.screen
    }

    open spec fn lays_out(&self) -> bool {
        self@.layout_fits()
    }

    open spec fn reach(&self) -> Seq<Window> {
        self@.windows
    }

    open spec fn tells(&self, window: Window) -> bool {
        self@.tiles.contains(window) ==> self@.layout_fits()
    }

    proof fn lemma_managed(&self) {
        if self@.focused().is_some() {
            assert(self@.windows[self@.windows.len() - 1] == self@.windows.last());
        }
    }

    proof fn lemma_tells(&self, window: Window) {
    }

    fn new(screen: Screen) -> (wm: Self)
        ensures
            wm@ == TilingState::start(screen),
            wm@.wf(),
            wm@.all_tiled(),
    {
        TilingWM::new(screen)
    }

    fn is_valid(&self) -> (valid: bool) {
        TilingWM::is_valid(self) && TilingWM::shows_all(self)
    }

    fn can_lay_out(&self) -> (fits: bool)
        ensures
            fits == self@.layout_fits(),
    {
        TilingWM::can_lay_out(self)
    }

    fn get_window_layout(&self) -> (layout: WindowLayout)
        ensures
            layout.focused_window == self@.focused(),
            layout.windows@ == self@.layout_windows(),
            layout.shows_each_once(),
            forall|w: Window| #[trigger] layout.shows(w) <==> self@.tiles.contains(w),
            self@.all_tiled() ==> layout.shows_focus(),
            self@.all_tiled() ==> forall|w: Window| #[trigger]
                layout.shows(w) <==> self@.is_managed(w),
    {
        TilingWM::get_window_layout(self)
    }

    fn is_managed(&self, window: Window) -> (managed: bool)
        ensures
            managed == self@.is_managed(window),
            managed == self@.windows.contains(window),
    {
        TilingWM::is_managed(self, window)
    }

    fn get_windows(&self) -> (windows: Vec<Window>)
        ensures
            windows@ == self@.windows,
    {
        TilingWM::get_windows(self)
    }

    fn get_focused_window(&self) -> (focused: Option<Window>)
        ensures
            focused == self@.focused(),
    {
        TilingWM::get_focused_window(self)
    }

    fn add_window(&mut self, window_with_info: WindowWithInfo) -> (res: Result<(), WMError>)
        ensures
            final(self)@.wf(),
            old(self)@.all_tiled() ==> final(self)@.all_tiled(),
            match res {
                Ok(_) => {
                    &&& !old(self)@.is_managed(window_with_info.window)
                    &&& final(self)@ == old(self)@.add_window(window_with_info)
                    &&& final(self)@.is_managed(window_with_info.window)
                    &&& final(self)@.focused() == Some(window_with_info.window)
                },
                Err(e) => {
                    &&& old(self)@.is_managed(window_with_info.window)
                    &&& e == WMError::AlreadyManagedWindow(window_with_info.window)
                    &&& final(self)@ == old(self)@
                },
            },
    {
        proof {
            if !self@.is_managed(window_with_info.window) {
                self@.lemma_add_window(window_with_info);
            }
        }
        TilingWM::add_window(self, window_with_info)
    }

    fn remove_window(&mut self, window: Window) -> (res: Result<(), WMError>)
        ensures
            final(self)@.wf(),
            old(self)@.all_tiled() ==> final(self)@.all_tiled(),
            match res {
                Ok(_) => {
                    &&& old(self)@.is_managed(window)
                    &&& final(self)@ == old(self)@.remove_window(window)
                    &&& !final(self)@.is_managed(window)
                },
                Err(e) => {
                    &&& !old(self)@.is_managed(window)
                    &&& e == WMError::UnknownWindow(window)
                    &&& final(self)@ == old(self)@
                },
            },
    {
        proof {
            self@.lemma_remove_window(window);
        }
        TilingWM::remove_window(self, window)
    }

    fn focus_window(&mut self, window: Option<Window>) -> (res: Result<(), WMError>)
        ensures
            final(self)@.wf(),
            old(self)@.all_tiled() ==> final(self)@.all_tiled(),
            match window {
                None => res.is_ok() && final(self)@ == old(self)@.unfocus(),
                Some(w) => match res {
                    Ok(_) => {
                        &&& old(self)@.is_managed(w)
                        &&& final(self)@ == old(self)@.focus(w)
                    },
                    Err(e) => {
                        &&& !old(self)@.is_managed(w)
                        &&& e == WMError::UnknownWindow(w)
                        &&& final(self)@ == old(self)@
                    },
                },
            },
            res.is_ok() ==> final(self)@.focused() == window,
    {
        proof {
            match window {
                Some(w) => {
                    if self@.is_managed(w) {
                        self@.lemma_focus(w);
                    }
                },
                None => {},
            }
        }
        TilingWM::focus_window(self, window)
    }

    fn cycle_focus(&mut self, dir: PrevOrNext)
        ensures
            final(self)@.wf(),
            old(self)@.all_tiled() ==> final(self)@.all_tiled(),
            final(self)@ == old(self)@.cycle_focus(dir),
    {
        proof {
            self@.lemma_cycle_focus(dir);
        }
        TilingWM::cycle_focus(self, dir)
    }

    fn get_window_info(&self, window: Window) -> (res: Result<WindowWithInfo, WMError>)
        ensures
            match res {
                Ok(info) => self@.is_managed(window) && info == self@.window_info(window),
                Err(e) => !self@.is_managed(window) && e == WMError::UnknownWindow(window),
            },
    {
        proof {
            assert(self@.windows.contains(window) ==> self@.info.contains_key(window));
        }
        TilingWM::get_window_info(self, window)
    }

    fn get_screen(&self) -> (screen: Screen)
        ensures
            screen == self@.screen,
    {
        TilingWM::get_screen(self)
    }

    fn resize_screen(&mut self, screen: Screen)
        ensures
            final(self)@ == old(self)@.resize_screen(screen),
            old(self)@.wf() ==> final(self)@.wf(),
            old(self)@.all_tiled() ==> final(self)@.all_tiled(),
    {
        TilingWM::resize_screen(self, screen)
    }
}

impl TilingSupport for TilingWM {
    open spec fn master(&self) -> Option<Window> {
        self@.master()
    }

    fn get_master_window(&self) -> (master: Option<Window>)
        ensures
            master == self@.master(),
    {
        proof {
            if self@.tiles.len() > 0 {
                assert(self@.tiles.contains(self@.tiles[0]));
            }
        }
        TilingWM::get_master_window(self)
    }

    fn swap_with_master(&mut self, window: Window) -> (res: Result<(), WMError>)
        ensures
            final(self)@.wf(),
            old(self)@.all_tiled() ==> final(self)@.all_tiled(),
            match res {
                Ok(_) => {
                    &&& old(self)@.is_managed(window)
                    &&& final(self)@ == old(self)@.swap_with_master(window)
                    &&& old(self)@.tiles.contains(window) ==> final(self)@.master() == Some(
                        window,
                    ) && final(self)@.focused() == Some(window)
                },
                Err(e) => {
                    &&& !old(self)@.is_managed(window)
                    &&& e == WMError::UnknownWindow(window)
                    &&& final(self)@ == old(self)@
                },
            },
    {
        proof {
            if self@.is_managed(window) {
                self@.lemma_swap_with_master(window);
            }
        }
        TilingWM::swap_with_master(self, window)
    }

    fn swap_windows(&mut self, dir: PrevOrNext)
        ensures
            final(self)@.wf(),
            old(self)@.all_tiled() ==> final(self)@.all_tiled(),
            final(self)@ == old(self)@.swap_windows(dir),
            final(self)@.focused() == old(self)@.focused(),
    {
        proof {
            self@.lemma_swap_windows(dir);
        }
        TilingWM::swap_windows(self, dir)
    }
}

} // verus!
