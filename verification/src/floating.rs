//! Floating windows on top of the tiling window manager.
//!
//! A floating window keeps the geometry it was given and is shown above the
//! tiles. The floating windows are stacked in focus order.

use std::collections::HashMap;
use vstd::prelude::*;
use crate::order::{
    holds, lemma_all_selected, lemma_push, lemma_those_in, lemma_those_in_ends,
    lemma_those_in_step, lemma_without, take_out, those_in, without,
};
use crate::tiling::{TilingState, TilingWM};
use crate::types::{
    each_once, FloatOrTile, Geometry, lists, PrevOrNext, Screen, Window, WindowLayout, WindowWithInfo,
};
use crate::wm::{FloatSupport, TilingSupport, WindowManager};
use crate::wm_error::WMError;

verus! {

broadcast use vstd::std_specs::hash::group_hash_axioms;

/// What is recorded about a window once it floats or tiles.
pub open spec fn with_float_or_tile(info: WindowWithInfo, float_or_tile: FloatOrTile)
    -> WindowWithInfo {
    WindowWithInfo { float_or_tile, ..info }
}

/// What is recorded about a window once it has the geometry `geometry`.
pub open spec fn with_geometry(info: WindowWithInfo, geometry: Geometry) -> WindowWithInfo {
    WindowWithInfo { geometry, ..info }
}

/// The state of a window manager with tiles and floating windows.
pub struct FloatingState {
    /// The state of the tiling window manager underneath.
    pub tiling: TilingState,
    /// The geometry of each window that floats on the screen.
    pub floats: Map<Window, Geometry>,
}

impl FloatingState {
    /// The state of a window manager without windows.
    pub open spec fn start(screen: Screen) -> FloatingState {
        FloatingState { tiling: TilingState::start(screen), floats: Map::empty() }
    }

    /// The state is well-formed: the tiling state is, every tile is
    /// recorded as tiled, and every window that floats on the screen is
    /// managed and recorded as floating with the geometry that it has
    /// there. No window is then both a tile and afloat.
    pub open spec fn wf(self) -> bool {
        &&& self.tiling.wf()
        &&& forall|w: Window| #[trigger]
            self.tiling.tiles.contains(w) ==> self.tiling.info[w].float_or_tile
                == FloatOrTile::Tile
        &&& forall|w: Window| #[trigger]
            self.floats.contains_key(w) ==> {
                &&& self.tiling.windows.contains(w)
                &&& self.tiling.info[w].float_or_tile == FloatOrTile::Float
                &&& self.tiling.info[w].geometry == self.floats[w]
            }
    }

    /// Every managed window is on the screen, as a tile or afloat. A
    /// floating window manager on its own keeps it so; the layers that are
    /// built on it take windows off the screen to hide them.
    pub open spec fn all_shown(self) -> bool {
        forall|w: Window| #[trigger]
            self.tiling.windows.contains(w) ==> self.tiling.tiles.contains(w)
                || self.floats.contains_key(w)
    }

    /// Whether `w` is managed.
    pub open spec fn is_managed(self, w: Window) -> bool {
        self.tiling.is_managed(w)
    }

    /// The focused window.
    pub open spec fn focused(self) -> Option<Window> {
        self.tiling.focused()
    }

    /// Whether `w` floats on the screen.
    pub open spec fn is_floating(self, w: Window) -> bool {
        self.floats.contains_key(w)
    }

    /// The windows that float on the screen, in focus order.
    pub open spec fn floating_windows(self) -> Seq<Window> {
        those_in(self.tiling.windows, self.floats.dom())
    }

    /// The visible windows with their geometry: the tiles, and above them
    /// the floating windows in focus order.
    pub open spec fn layout_windows(self) -> Seq<(Window, Geometry)> {
        self.tiling.layout_windows() + self.floating_windows().map_values(
            |w: Window| (w, self.floats[w]),
        )
    }

    /// What is recorded about the managed window `w`.
    pub open spec fn window_info(self, w: Window) -> WindowWithInfo {
        self.tiling.info[w]
    }

    /// The state after the unmanaged window of `info` has been added. A
    /// window that is recorded as floating leaves the tile that the tiling
    /// window manager gives it and floats with its own geometry.
    pub open spec fn add_window(self, info: WindowWithInfo) -> FloatingState {
        if info.float_or_tile == FloatOrTile::Float {
            FloatingState {
                tiling: TilingState { tiles: self.tiling.tiles, ..self.tiling.add_window(info) },
                floats: self.floats.insert(info.window, info.geometry),
            }
        } else {
            FloatingState { tiling: self.tiling.add_window(info), floats: self.floats }
        }
    }

    /// The state after the window `w` has been removed.
    pub open spec fn remove_window(self, w: Window) -> FloatingState {
        FloatingState { tiling: self.tiling.remove_window(w), floats: self.floats.remove(w) }
    }

    /// The state after the focus has gone to the managed window `w`.
    pub open spec fn focus(self, w: Window) -> FloatingState {
        FloatingState { tiling: self.tiling.focus(w), ..self }
    }

    /// The state after the focus has been taken away.
    pub open spec fn unfocus(self) -> FloatingState {
        FloatingState { tiling: self.tiling.unfocus(), ..self }
    }

    /// The state after the focus has moved to the previous or next window.
    pub open spec fn cycle_focus(self, dir: PrevOrNext) -> FloatingState {
        FloatingState { tiling: self.tiling.cycle_focus(dir), ..self }
    }

    /// The state after the screen has changed.
    pub open spec fn resize_screen(self, screen: Screen) -> FloatingState {
        FloatingState { tiling: self.tiling.resize_screen(screen), ..self }
    }

    /// The state after `w` has been exchanged with the master window.
    pub open spec fn swap_with_master(self, w: Window) -> FloatingState {
        FloatingState { tiling: self.tiling.swap_with_master(w), ..self }
    }

    /// The state after the focused tile has been exchanged with its
    /// neighbour. A focused window that is recorded as floating leaves the
    /// tiles as they are.
    pub open spec fn swap_windows(self, dir: PrevOrNext) -> FloatingState {
        match self.focused() {
            Some(f) if self.tiling.info[f].float_or_tile == FloatOrTile::Float => self,
            _ => FloatingState { tiling: self.tiling.swap_windows(dir), ..self },
        }
    }

    /// The state after the managed window `w` has been shown as a tile: the
    /// last one, unless it is a tile already.
    pub open spec fn sink(self, w: Window) -> FloatingState {
        FloatingState {
            tiling: TilingState {
                info: self.tiling.info.insert(
                    w,
                    with_float_or_tile(self.tiling.info[w], FloatOrTile::Tile),
                ),
                tiles: without(self.tiling.tiles, w).push(w),
                ..self.tiling
            },
            floats: self.floats.remove(w),
        }
    }

    /// The state after the managed window `w` has been set afloat with the
    /// geometry that is recorded for it.
    pub open spec fn float(self, w: Window) -> FloatingState {
        FloatingState {
            tiling: TilingState {
                info: self.tiling.info.insert(
                    w,
                    with_float_or_tile(self.tiling.info[w], FloatOrTile::Float),
                ),
                tiles: without(self.tiling.tiles, w),
                ..self.tiling
            },
            floats: self.floats.insert(w, self.tiling.info[w].geometry),
        }
    }

    /// The state after the managed window `w` has changed between floating
    /// and tiling: a window recorded as floating sinks, a window recorded as
    /// tiled floats.
    pub open spec fn toggle_floating(self, w: Window) -> FloatingState {
        if self.tiling.info[w].float_or_tile == FloatOrTile::Float {
            self.sink(w)
        } else {
            self.float(w)
        }
    }

    /// The state after the managed window `w` has been given the geometry
    /// `g`. Only a window that floats on the screen takes it.
    pub open spec fn set_window_geometry(self, w: Window, g: Geometry) -> FloatingState {
        if self.floats.contains_key(w) {
            FloatingState {
                tiling: TilingState {
                    info: self.tiling.info.insert(w, with_geometry(self.tiling.info[w], g)),
                    ..self.tiling
                },
                floats: self.floats.insert(w, g),
            }
        } else {
            self
        }
    }

    /// The floating windows are exactly the windows that float, and each is
    /// listed once.
    pub proof fn lemma_floating_windows(self)
        requires
            self.wf(),
        ensures
            self.floating_windows().no_duplicates(),
            forall|w: Window| #[trigger]
                self.floating_windows().contains(w) <==> self.is_floating(w),
            forall|w: Window| self.is_floating(w) ==> self.is_managed(w),
    {
        lemma_those_in(self.tiling.windows, self.floats.dom());
    }

    /// Adding an unmanaged window keeps the state well-formed; the window
    /// is on the screen and focused.
    pub proof fn lemma_add_window(self, info: WindowWithInfo)
        requires
            self.wf(),
            !self.is_managed(info.window),
        ensures
            self.add_window(info).wf(),
            self.add_window(info).is_managed(info.window),
            self.add_window(info).focused() == Some(info.window),
            self.add_window(info).tiling.windows == self.tiling.add_window(info).windows,
            self.add_window(info).tiling.info == self.tiling.add_window(info).info,
            self.add_window(info).is_floating(info.window) <==> info.float_or_tile
                == FloatOrTile::Float,
            self.add_window(info).tiling.tiles.contains(info.window) <==> info.float_or_tile
                == FloatOrTile::Tile,
            forall|w: Window|
                w != info.window ==> (#[trigger] self.add_window(info).tiling.tiles.contains(w)
                    <==> self.tiling.tiles.contains(w)),
            forall|w: Window|
                w != info.window ==> (#[trigger] self.add_window(info).floats.contains_key(w)
                    <==> self.floats.contains_key(w)),
            self.all_shown() ==> self.add_window(info).all_shown(),
    {
        self.tiling.lemma_add_window(info);
        assert(!self.floats.contains_key(info.window));
        let t = self.add_window(info);
        assert(t.tiling.wf());
        assert forall|w: Window| #[trigger] t.tiling.tiles.contains(w) implies t.tiling.info[w].float_or_tile
            == FloatOrTile::Tile by {
            if w != info.window {
                assert(self.tiling.tiles.contains(w));
            }
        }
        assert forall|w: Window| #[trigger] t.floats.contains_key(w) implies {
            &&& t.tiling.windows.contains(w)
            &&& t.tiling.info[w].float_or_tile == FloatOrTile::Float
            &&& t.tiling.info[w].geometry == t.floats[w]
        } by {
            if w != info.window {
                assert(self.floats.contains_key(w));
            }
        }
        if self.all_shown() {
            assert forall|w: Window| #[trigger] t.tiling.windows.contains(w) implies t.tiling.tiles.contains(
                w,
            ) || t.floats.contains_key(w) by {
                if w != info.window {
                    assert(self.tiling.windows.contains(w));
                }
            }
        }
    }

    /// Removing a window keeps the state well-formed.
    pub proof fn lemma_remove_window(self, w: Window)
        requires
            self.wf(),
        ensures
            self.remove_window(w).wf(),
            !self.remove_window(w).is_managed(w),
            !self.remove_window(w).is_floating(w),
            !self.is_managed(w) ==> self.remove_window(w) == self,
            self.all_shown() ==> self.remove_window(w).all_shown(),
    {
        self.tiling.lemma_remove_window(w);
        let t = self.remove_window(w);
        if self.all_shown() {
            assert forall|x: Window| #[trigger] t.tiling.windows.contains(x) implies t.tiling.tiles.contains(
                x,
            ) || t.floats.contains_key(x) by {
                assert(self.tiling.windows.contains(x));
            }
        }
        assert forall|x: Window| #[trigger] t.floats.contains_key(x) implies {
            &&& t.tiling.windows.contains(x)
            &&& t.tiling.info[x].float_or_tile == FloatOrTile::Float
            &&& t.tiling.info[x].geometry == t.floats[x]
        } by {
            assert(self.floats.contains_key(x));
        }
        if !self.is_managed(w) {
            assert(!self.floats.contains_key(w));
            assert(self.floats.remove(w) =~= self.floats);
        }
    }

    /// A window floats after it has been toggled exactly if it was not
    /// recorded as floating before, and the other windows stay as they are.
    pub proof fn lemma_toggle_floating(self, w: Window)
        requires
            self.wf(),
            self.is_managed(w),
        ensures
            self.toggle_floating(w).wf(),
            self.toggle_floating(w).tiling.windows == self.tiling.windows,
            self.toggle_floating(w).focused() == self.focused(),
            self.toggle_floating(w).is_floating(w) <==> self.tiling.info[w].float_or_tile
                == FloatOrTile::Tile,
            self.toggle_floating(w).tiling.tiles.contains(w) <==> self.tiling.info[w].float_or_tile
                == FloatOrTile::Float,
            forall|x: Window|
                x != w ==> (#[trigger] self.toggle_floating(w).floats.contains_key(x)
                    <==> self.floats.contains_key(x)),
            forall|x: Window|
                x != w ==> (#[trigger] self.toggle_floating(w).tiling.tiles.contains(x)
                    <==> self.tiling.tiles.contains(x)),
            forall|x: Window|
                x != w ==> #[trigger] self.toggle_floating(w).tiling.info[x]
                    == self.tiling.info[x],
            self.toggle_floating(w).tiling.tiles.contains(w) || self.toggle_floating(
                w,
            ).floats.contains_key(w),
            self.all_shown() ==> self.toggle_floating(w).all_shown(),
    {
        let t = self.toggle_floating(w);
        lemma_without(self.tiling.tiles, w);
        assert(self.tiling.info.contains_key(w));
        if self.tiling.info[w].float_or_tile == FloatOrTile::Float {
            lemma_push(without(self.tiling.tiles, w), w);
        }
        assert forall|x: Window| #[trigger] t.tiling.info.contains_key(x) <==> t.tiling.windows.contains(x) by {
            assert(self.tiling.info.contains_key(x) <==> self.tiling.windows.contains(x));
        }
        assert(t.tiling.wf());
    }

    /// Setting the geometry keeps the state well-formed and every window
    /// where it is: floating, tiled or neither.
    pub proof fn lemma_set_window_geometry(self, w: Window, g: Geometry)
        requires
            self.wf(),
            self.is_managed(w),
        ensures
            self.set_window_geometry(w, g).wf(),
            self.set_window_geometry(w, g).tiling.windows == self.tiling.windows,
            self.set_window_geometry(w, g).tiling.tiles == self.tiling.tiles,
            self.set_window_geometry(w, g).focused() == self.focused(),
            self.set_window_geometry(w, g).floats.dom() == self.floats.dom(),
            self.is_floating(w) ==> self.set_window_geometry(w, g).floats[w] == g,
            self.all_shown() ==> self.set_window_geometry(w, g).all_shown(),
    {
        let t = self.set_window_geometry(w, g);
        if self.floats.contains_key(w) {
            assert(self.tiling.info.contains_key(w));
            assert forall|x: Window| #[trigger] t.tiling.info.contains_key(x) <==> t.tiling.windows.contains(x) by {
                assert(self.tiling.info.contains_key(x) <==> self.tiling.windows.contains(x));
            }
            assert(t.tiling.wf());
            assert(t.floats.dom() =~= self.floats.dom());
        }
    }

    /// The focus operations of the tiling window manager keep the state
    /// well-formed.
    pub proof fn lemma_focus_ops(self, w: Window, dir: PrevOrNext)
        requires
            self.wf(),
        ensures
            self.unfocus().wf(),
            self.cycle_focus(dir).wf(),
            self.swap_windows(dir).wf(),
            self.is_managed(w) ==> self.focus(w).wf() && self.swap_with_master(w).wf(),
            self.all_shown() ==> self.unfocus().all_shown() && self.cycle_focus(dir).all_shown()
                && self.swap_windows(dir).all_shown(),
            self.all_shown() && self.is_managed(w) ==> self.focus(w).all_shown()
                && self.swap_with_master(w).all_shown(),
    {
        self.tiling.lemma_cycle_focus(dir);
        self.tiling.lemma_swap_windows(dir);
        assert forall|x: Window| #[trigger] self.floats.contains_key(x) implies {
            &&& self.tiling.cycle_focus(dir).windows.contains(x)
            &&& self.tiling.swap_windows(dir).windows.contains(x)
        } by {}
        if self.is_managed(w) {
            self.tiling.lemma_focus(w);
            self.tiling.lemma_swap_with_master(w);
            assert forall|x: Window| #[trigger] self.floats.contains_key(x) implies {
                &&& self.tiling.focus(w).windows.contains(x)
                &&& self.tiling.swap_with_master(w).windows.contains(x)
            } by {}
        }
    }
}

impl FloatingState {
    /// The layout places no window twice.
    pub proof fn lemma_layout_each_once(self)
        requires
            self.wf(),
        ensures
            each_once(self.layout_windows()),
    {
        let tiles = self.tiling.layout_windows();
        let afloat = self.floating_windows().map_values(|w: Window| (w, self.floats[w]));
        let layout = self.layout_windows();
        self.lemma_floating_windows();
        assert forall|i: int, j: int| 0 <= i < j < layout.len() implies (#[trigger] layout[i]).0 != (
        #[trigger] layout[j]).0 by {
            if j < tiles.len() {
                assert(self.tiling.tiles[i] != self.tiling.tiles[j]);
            } else if i >= tiles.len() {
                assert(self.floating_windows()[i - tiles.len()] != self.floating_windows()[j
                    - tiles.len()]);
            } else {
                let f = self.floating_windows()[j - tiles.len()];
                assert(self.floating_windows().contains(f));
                assert(self.floats.contains_key(f));
                assert(self.tiling.tiles.contains(self.tiling.tiles[i]));
            }
        }
    }

    /// The layout places exactly the tiles and the windows that float on
    /// the screen. While every managed window is on the screen, these are
    /// exactly the managed windows, and the focused window is one of them.
    pub proof fn lemma_layout_lists(self, w: Window)
        requires
            self.wf(),
        ensures
            lists(self.layout_windows(), w) <==> self.tiling.tiles.contains(w)
                || self.floats.contains_key(w),
            lists(self.layout_windows(), w) ==> self.is_managed(w),
            self.all_shown() ==> (lists(self.layout_windows(), w) <==> self.is_managed(w)),
            self.all_shown() && self.focused() == Some(w) ==> lists(self.layout_windows(), w),
    {
        if self.focused() == Some(w) {
            assert(self.tiling.windows[self.tiling.windows.len() - 1] == w);
            assert(self.tiling.windows.contains(w));
        }
        let tiles = self.tiling.layout_windows();
        let afloat = self.floating_windows().map_values(|w: Window| (w, self.floats[w]));
        let layout = self.layout_windows();
        self.tiling.lemma_layout_lists_tiles(w);
        self.lemma_floating_windows();
        if lists(layout, w) {
            let i = choose|i: int| 0 <= i < layout.len() && (#[trigger] layout[i]).0 == w;
            if i < tiles.len() {
                assert(tiles[i].0 == w);
            } else {
                assert(afloat[i - tiles.len()].0 == w);
                assert(self.floating_windows()[i - tiles.len()] == w);
                assert(self.floating_windows().contains(w));
            }
        }
        if self.tiling.tiles.contains(w) {
            let i = choose|i: int| 0 <= i < tiles.len() && (#[trigger] tiles[i]).0 == w;
            assert(layout[i].0 == w);
        }
        if self.floats.contains_key(w) {
            assert(self.floating_windows().contains(w));
            let k = choose|k: int|
                0 <= k < self.floating_windows().len() && self.floating_windows()[k] == w;
            assert(afloat[k].0 == w);
            assert(layout[tiles.len() + k].0 == w);
        }
    }

    /// Toggling a window that is on the screen twice leaves it floating
    /// exactly if it floated before.
    pub proof fn lemma_toggle_shown_twice(self, w: Window)
        requires
            self.wf(),
            self.is_managed(w),
            self.is_floating(w) || self.tiling.tiles.contains(w),
        ensures
            self.toggle_floating(w).toggle_floating(w).is_floating(w) == self.is_floating(w),
            self.toggle_floating(w).is_floating(w) != self.is_floating(w),
            self.toggle_floating(w).toggle_floating(w).tiling.windows == self.tiling.windows,
    {
        self.lemma_toggle_floating(w);
        let t = self.toggle_floating(w);
        assert(t.is_managed(w));
        t.lemma_toggle_floating(w);
        assert(self.tiling.info.contains_key(w));
    }

    /// In a window manager that shows all its windows, a window floats
    /// after it has been toggled exactly if it did not float before, and
    /// after it has been toggled twice exactly if it floated before. The
    /// managed windows and their focus order stay as they are.
    pub proof fn lemma_toggle_floating_twice(self, w: Window)
        requires
            self.wf(),
            self.all_shown(),
            self.is_managed(w),
        ensures
            self.toggle_floating(w).is_floating(w) == !self.is_floating(w),
            self.toggle_floating(w).toggle_floating(w).is_floating(w) == self.is_floating(w),
            self.toggle_floating(w).toggle_floating(w).tiling.windows == self.tiling.windows,
            self.toggle_floating(w).toggle_floating(w).wf(),
            self.toggle_floating(w).toggle_floating(w).all_shown(),
    {
        self.lemma_toggle_shown_twice(w);
        self.lemma_toggle_floating(w);
        self.toggle_floating(w).lemma_toggle_floating(w);
    }
}

/// A window manager with tiles and floating windows.
#[derive(Clone, Debug)]
pub struct FloatingWM {
    /// The tiling window manager underneath.
    pub tiling_wm: TilingWM,
    /// The geometry of each window that floats on the screen.
    pub floats: HashMap<Window, Geometry>,
}

impl View for FloatingWM {
    type V = FloatingState;

    open spec fn view(&self) -> FloatingState {
        FloatingState { tiling: self.tiling_wm@, floats: self.floats@ }
    }
}

impl FloatingWM {
    /// A window manager without windows for the given screen.
    pub fn new(screen: Screen) -> (wm: FloatingWM)
        ensures
            wm@ == FloatingState::start(screen),
            wm@.wf(),
            wm@.all_shown(),
    {
        FloatingWM { tiling_wm: TilingWM::new(screen), floats: HashMap::new() }
    }

    /// Tell whether the window manager is well-formed. A window manager
    /// that was made by `new` and changed by its operations is; one that
    /// was put together from parts has to be checked.
    pub fn is_valid(&self) -> (valid: bool)
        ensures
            valid == self@.wf(),
    {
        if !self.tiling_wm.is_valid() {
            return false;
        }
        let mut j: usize = 0;
        while j < self.tiling_wm.tiles.len()
            invariant
                j <= self@.tiling.tiles.len(),
                self@.tiling.wf(),
                forall|k: int|
                    0 <= k < j ==> self@.tiling.info[#[trigger] self@.tiling.tiles[k]].float_or_tile
                        == FloatOrTile::Tile,
            decreases self@.tiling.tiles.len() - j,
        {
            let tile = self.tiling_wm.tiles[j];
            proof {
                assert(self@.tiling.tiles.contains(tile));
                assert(self@.tiling.windows.contains(tile));
                assert(self@.tiling.info.contains_key(tile));
            }
            let tiled = match self.tiling_wm.windows_info.get(&tile) {
                Some(info) => info.float_or_tile == FloatOrTile::Tile,
                None => false,
            };
            if !tiled {
                return false;
            }
            j = j + 1;
        }
        proof {
            assert forall|w: Window| #[trigger]
                self@.tiling.tiles.contains(w) implies self@.tiling.info[w].float_or_tile
                == FloatOrTile::Tile by {
                let k = choose|k: int|
                    0 <= k < self@.tiling.tiles.len() && self@.tiling.tiles[k] == w;
                assert(self@.tiling.info[self@.tiling.tiles[k]].float_or_tile
                    == FloatOrTile::Tile);
            }
        }
        let mut count: usize = 0;
        let mut i: usize = 0;
        proof {
            lemma_those_in_ends(self@.tiling.windows, self@.floats.dom());
        }
        while i < self.tiling_wm.windows.len()
            invariant
                i <= self@.tiling.windows.len(),
                self@.tiling.wf(),
                count == those_in(self@.tiling.windows.take(i as int), self@.floats.dom()).len(),
                count <= i,
                forall|k: int|
                    0 <= k < i && self@.floats.contains_key(#[trigger] self@.tiling.windows[k]) ==> {
                        &&& self@.tiling.info[self@.tiling.windows[k]].float_or_tile
                            == FloatOrTile::Float
                        &&& self@.tiling.info[self@.tiling.windows[k]].geometry
                            == self@.floats[self@.tiling.windows[k]]
                    },
            decreases self@.tiling.windows.len() - i,
        {
            let window = self.tiling_wm.windows[i];
            proof {
                lemma_those_in_step(self@.tiling.windows, i as int, self@.floats.dom());
                assert(self@.tiling.windows.contains(window));
                assert(self@.tiling.info.contains_key(window));
            }
            match self.floats.get(&window) {
                None => {},
                Some(geometry) => {
                    let matches = match self.tiling_wm.windows_info.get(&window) {
                        Some(info) => info.float_or_tile == FloatOrTile::Float && info.geometry
                            == *geometry,
                        None => false,
                    };
                    if !matches {
                        return false;
                    }
                    count = count + 1;
                },
            }
            i = i + 1;
        }
        proof {
            lemma_those_in_ends(self@.tiling.windows, self@.floats.dom());
            lemma_all_selected(self@.tiling.windows, self@.floats.dom());
            assert forall|w: Window|
                self@.tiling.windows.contains(w) && #[trigger] self@.floats.contains_key(w) implies {
                &&& self@.tiling.info[w].float_or_tile == FloatOrTile::Float
                &&& self@.tiling.info[w].geometry == self@.floats[w]
            } by {
                let k = choose|k: int|
                    0 <= k < self@.tiling.windows.len() && self@.tiling.windows[k] == w;
                assert(self@.floats.contains_key(self@.tiling.windows[k]));
            }
        }
        count == self.floats.len()
    }

    /// Tell whether every managed window is on the screen, as a tile or
    /// afloat.
    pub fn shows_all(&self) -> (all: bool)
        ensures
            all == self@.all_shown(),
    {
        let mut i: usize = 0;
        while i < self.tiling_wm.windows.len()
            invariant
                i <= self@.tiling.windows.len(),
                forall|k: int|
                    0 <= k < i ==> self@.tiling.tiles.contains(#[trigger] self@.tiling.windows[k])
                        || self@.floats.contains_key(self@.tiling.windows[k]),
            decreases self@.tiling.windows.len() - i,
        {
            let window = self.tiling_wm.windows[i];
            assert(self@.tiling.windows.contains(window));
            if !holds(&self.tiling_wm.tiles, window) && !self.floats.contains_key(&window) {
                assert(!self@.tiling.tiles.contains(window));
                return false;
            }
            i = i + 1;
        }
        assert forall|w: Window| #[trigger]
            self@.tiling.windows.contains(w) implies self@.tiling.tiles.contains(w)
            || self@.floats.contains_key(w) by {
            let k = choose|k: int| 0 <= k < self@.tiling.windows.len() && self@.tiling.windows[k] == w;
            assert(self@.tiling.tiles.contains(self@.tiling.windows[k])
                || self@.floats.contains_key(self@.tiling.windows[k]));
        }
        true
    }

    /// Tell whether the layout can be written down: whether the offsets of
    /// all tiles fit the signed coordinates of a geometry.
    pub fn can_lay_out(&self) -> (fits: bool)
        ensures
            fits == self@.tiling.layout_fits(),
    {
        self.tiling_wm.can_lay_out()
    }

    /// Return the managed windows in focus order.
    pub fn get_windows(&self) -> (windows: Vec<Window>)
        ensures
            windows@ == self@.tiling.windows,
    {
        self.tiling_wm.get_windows()
    }

    /// Tell whether `window` is managed: whether `get_windows` lists it.
    pub fn is_managed(&self, window: Window) -> (managed: bool)
        ensures
            managed == self@.is_managed(window),
            managed == self@.tiling.windows.contains(window),
    {
        self.tiling_wm.is_managed(window)
    }

    /// Return the focused window, if there is one.
    pub fn get_focused_window(&self) -> (focused: Option<Window>)
        ensures
            focused == self@.focused(),
    {
        self.tiling_wm.get_focused_window()
    }

    /// Add a window and focus it. It floats with its own geometry if it is
    /// recorded as floating, and gets the last tile otherwise. Either way
    /// it is on the screen. A window that is already managed is refused.
    pub fn add_window(&mut self, window_with_info: WindowWithInfo) -> (res: Result<(), WMError>)
        requires
            old(self)@.wf(),
        ensures
            final(self)@.wf(),
            old(self)@.all_shown() ==> final(self)@.all_shown(),
            match res {
                Ok(_) => {
                    &&& !old(self)@.is_managed(window_with_info.window)
                    &&& final(self)@ == old(self)@.add_window(window_with_info)
                    &&& final(self)@.is_managed(window_with_info.window)
                    &&& final(self)@.focused() == Some(window_with_info.window)
                },
                Err(e) => {
                    &&& old(self)@.is_managed(window_with_info.window)
                    &&& e == WMError::AlreadyManagedWindow(window_with_info.window)
                    &&& final(self)@ == old(self)@
                },
            },
    {
        proof {
            if !self@.is_managed(window_with_info.window) {
                self@.lemma_add_window(window_with_info);
            }
        }
        match self.tiling_wm.add_window(window_with_info) {
            Err(e) => Err(e),
            Ok(_) => {
                if window_with_info.float_or_tile == FloatOrTile::Float {
                    self.tiling_wm.tiles.pop();
                    assert(self@.tiling.tiles =~= old(self)@.tiling.tiles);
                    self.floats.insert(window_with_info.window, window_with_info.geometry);
                }
                Ok(())
            },
        }
    }

    /// Remove a window, be it a tile or afloat. A window that is not managed
    /// is refused.
    pub fn remove_window(&mut self, window: Window) -> (res: Result<(), WMError>)
        requires
            old(self)@.wf(),
        ensures
            final(self)@.wf(),
            old(self)@.all_shown() ==> final(self)@.all_shown(),
            match res {
                Ok(_) => {
                    &&& old(self)@.is_managed(window)
                    &&& final(self)@ == old(self)@.remove_window(window)
                    &&& !final(self)@.is_managed(window)
                },
                Err(e) => {
                    &&& !old(self)@.is_managed(window)
                    &&& e == WMError::UnknownWindow(window)
                    &&& final(self)@ == old(self)@
                },
            },
    {
        proof {
            self@.lemma_remove_window(window);
        }
        match self.tiling_wm.remove_window(window) {
            Err(e) => Err(e),
            Ok(_) => {
                self.floats.remove(&window);
                Ok(())
            },
        }
    }

    /// Return the layout: the tiles, above them the floating windows in
    /// focus order, and the focused window.
    pub fn get_window_layout(&self) -> (layout: WindowLayout)
        requires
            self@.wf(),
            self@.tiling.layout_fits(),
        ensures
            layout.focused_window == self@.focused(),
            layout.windows@ == self@.layout_windows(),
            layout.shows_each_once(),
            forall|w: Window| #[trigger]
                layout.shows(w) <==> self@.tiling.tiles.contains(w) || self@.floats.contains_key(w),
            self@.all_shown() ==> layout.shows_focus(),
            self@.all_shown() ==> forall|w: Window| #[trigger]
                layout.shows(w) <==> self@.is_managed(w),
    {
        proof {
            self@.lemma_layout_each_once();
            assert forall|w: Window| #[trigger]
                lists(self@.layout_windows(), w) <==> self@.tiling.tiles.contains(w)
                || self@.floats.contains_key(w) by {
                self@.lemma_layout_lists(w);
            }
            match self@.focused() {
                Some(f) => {
                    self@.lemma_layout_lists(f);
                },
                None => {},
            }
        }
        let mut layout = self.tiling_wm.get_window_layout();
        let ghost tiles = layout.windows@;
        let ghost place = |w: Window| (w, self@.floats[w]);
        let mut i: usize = 0;
        proof {
            lemma_those_in_ends(self@.tiling.windows, self@.floats.dom());
            assert(layout.windows@ =~= tiles + those_in(
                self@.tiling.windows.take(0),
                self@.floats.dom(),
            ).map_values(place));
        }
        while i < self.tiling_wm.windows.len()
            invariant
                i <= self.tiling_wm.windows@.len(),
                place == |w: Window| (w, self@.floats[w]),
                layout.focused_window == self@.focused(),
                layout.windows@ == tiles + those_in(
                    self@.tiling.windows.take(i as int),
                    self@.floats.dom(),
                ).map_values(place),
            decreases self.tiling_wm.windows@.len() - i,
        {
            let window = self.tiling_wm.windows[i];
            proof {
                lemma_those_in_step(self@.tiling.windows, i as int, self@.floats.dom());
            }
            let ghost before = those_in(self@.tiling.windows.take(i as int), self@.floats.dom());
            match self.floats.get(&window) {
                Some(geometry) => {
                    layout.windows.push((window, *geometry));
                    assert(before.push(window).map_values(place) =~= before.map_values(
                        place,
                    ).push((window, *geometry)));
                    assert(layout.windows@ =~= tiles + before.push(window).map_values(place));
                },
                None => {},
            }
            i = i + 1;
        }
        proof {
            lemma_those_in_ends(self@.tiling.windows, self@.floats.dom());
        }
        layout
    }

    /// Focus the given window, or take the focus away when given `None`. A
    /// window that is not managed is refused.
    pub fn focus_window(&mut self, window: Option<Window>) -> (res: Result<(), WMError>)
        requires
            old(self)@.wf(),
        ensures
            final(self)@.wf(),
            old(self)@.all_shown() ==> final(self)@.all_shown(),
            match window {
                None => res.is_ok() && final(self)@ == old(self)@.unfocus(),
                Some(w) => match res {
                    Ok(_) => {
                        &&& old(self)@.is_managed(w)
                        &&& final(self)@ == old(self)@.focus(w)
                    },
                    Err(e) => {
                        &&& !old(self)@.is_managed(w)
                        &&& e == WMError::UnknownWindow(w)
                        &&& final(self)@ == old(self)@
                    },
                },
            },
            res.is_ok() ==> final(self)@.focused() == window,
    {
        proof {
            self@.lemma_focus_ops(
                match window {
                    Some(w) => w,
                    None => 0,
                },
                PrevOrNext::Next,
            );
        }
        self.tiling_wm.focus_window(window)
    }

    /// Focus the previous or the next window of the focus order, seen as a
    /// circle. Without windows nothing happens.
    pub fn cycle_focus(&mut self, dir: PrevOrNext)
        requires
            old(self)@.wf(),
        ensures
            final(self)@.wf(),
            old(self)@.all_shown() ==> final(self)@.all_shown(),
            final(self)@ == old(self)@.cycle_focus(dir),
    {
        proof {
            self@.lemma_focus_ops(0, dir);
        }
        self.tiling_wm.cycle_focus(dir);
    }

    /// Return what is recorded about a window: the geometry it was given,
    /// whether it floats or tiles, and whether it asked to be fullscreen. A
    /// window that is not managed is refused.
    pub fn get_window_info(&self, window: Window) -> (res: Result<WindowWithInfo, WMError>)
        requires
            self@.wf(),
        ensures
            match res {
                Ok(info) => self@.is_managed(window) && info == self@.window_info(window),
                Err(e) => !self@.is_managed(window) && e == WMError::UnknownWindow(window),
            },
    {
        match self.tiling_wm.windows_info.get(&window) {
            None => Err(WMError::UnknownWindow(window)),
            Some(info) => Ok(*info),
        }
    }

    /// Return the screen.
    pub fn get_screen(&self) -> (screen: Screen)
        ensures
            screen == self@.tiling.screen,
    {
        self.tiling_wm.get_screen()
    }

    /// Take note of a new screen.
    pub fn resize_screen(&mut self, screen: Screen)
        ensures
            final(self)@ == old(self)@.resize_screen(screen),
            old(self)@.wf() ==> final(self)@.wf(),
            old(self)@.all_shown() ==> final(self)@.all_shown(),
    {
        self.tiling_wm.resize_screen(screen);
        assert(self@.tiling.windows == old(self)@.tiling.windows);
        assert(self@.tiling.info == old(self)@.tiling.info);
        assert(self@.floats == old(self)@.floats);
    }

    /// Return the window in the master tile, if there is a tile.
    pub fn get_master_window(&self) -> (master: Option<Window>)
        ensures
            master == self@.tiling.master(),
    {
        self.tiling_wm.get_master_window()
    }

    /// Exchange the given window with the master window and focus it. A
    /// floating window stays where it is. A window that is not managed is
    /// refused.
    pub fn swap_with_master(&mut self, window: Window) -> (res: Result<(), WMError>)
        requires
            old(self)@.wf(),
        ensures
            final(self)@.wf(),
            old(self)@.all_shown() ==> final(self)@.all_shown(),
            match res {
                Ok(_) => {
                    &&& old(self)@.is_managed(window)
                    &&& final(self)@ == old(self)@.swap_with_master(window)
                    &&& old(self)@.tiling.tiles.contains(window) ==> final(self)@.tiling.master()
                        == Some(window) && final(self)@.focused() == Some(window)
                },
                Err(e) => {
                    &&& !old(self)@.is_managed(window)
                    &&& e == WMError::UnknownWindow(window)
                    &&& final(self)@ == old(self)@
                },
            },
    {
        proof {
            self@.lemma_focus_ops(window, PrevOrNext::Next);
        }
        self.tiling_wm.swap_with_master(window)
    }

    /// Exchange the tile of the focused window with the previous or the
    /// next tile. Nothing happens while a floating window has the focus.
    pub fn swap_windows(&mut self, dir: PrevOrNext)
        requires
            old(self)@.wf(),
        ensures
            final(self)@.wf(),
            old(self)@.all_shown() ==> final(self)@.all_shown(),
            final(self)@ == old(self)@.swap_windows(dir),
            final(self)@.focused() == old(self)@.focused(),
    {
        proof {
            self@.tiling.lemma_swap_windows(dir);
            self@.lemma_focus_ops(0, dir);
        }
        match self.tiling_wm.get_focused_window() {
            None => {
                self.tiling_wm.swap_windows(dir);
            },
            Some(focused) => {
                assert(self@.tiling.info.contains_key(focused)) by {
                    assert(self@.tiling.windows.contains(self@.tiling.windows.last()));
                }
                let floats = match self.tiling_wm.windows_info.get(&focused) {
                    Some(info) => info.float_or_tile == FloatOrTile::Float,
                    None => false,
                };
                if !floats {
                    self.tiling_wm.swap_windows(dir);
                }
            },
        }
    }

    /// Return the windows that float on the screen, in focus order.
    pub fn get_floating_windows(&self) -> (floating: Vec<Window>)
        ensures
            floating@ == self@.floating_windows(),
    {
        let mut floating: Vec<Window> = Vec::new();
        let mut i: usize = 0;
        proof {
            lemma_those_in_ends(self@.tiling.windows, self@.floats.dom());
        }
        while i < self.tiling_wm.windows.len()
            invariant
                i <= self.tiling_wm.windows@.len(),
                floating@ == those_in(self@.tiling.windows.take(i as int), self@.floats.dom()),
            decreases self.tiling_wm.windows@.len() - i,
        {
            let window = self.tiling_wm.windows[i];
            proof {
                lemma_those_in_step(self@.tiling.windows, i as int, self@.floats.dom());
            }
            if self.floats.contains_key(&window) {
                floating.push(window);
            }
            i = i + 1;
        }
        proof {
            lemma_those_in_ends(self@.tiling.windows, self@.floats.dom());
        }
        floating
    }

    /// Tell whether `window` floats on the screen: whether
    /// `get_floating_windows` lists it.
    pub fn is_floating(&self, window: Window) -> (floating: bool)
        requires
            self@.wf(),
        ensures
            floating == self@.is_floating(window),
            floating == self@.floating_windows().contains(window),
            floating ==> self@.is_managed(window),
    {
        proof {
            self@.lemma_floating_windows();
        }
        self.floats.contains_key(&window)
    }

    /// Let a floating window sink into the last tile, or set a tiled window
    /// afloat with the geometry that is recorded for it. A window that is
    /// not managed is refused.
    pub fn toggle_floating(&mut self, window: Window) -> (res: Result<(), WMError>)
        requires
            old(self)@.wf(),
        ensures
            final(self)@.wf(),
            old(self)@.all_shown() ==> final(self)@.all_shown(),
            match res {
                Ok(_) => {
                    &&& old(self)@.is_managed(window)
                    &&& final(self)@ == old(self)@.toggle_floating(window)
                    &&& final(self)@.tiling.windows == old(self)@.tiling.windows
                    &&& old(self)@.all_shown() ==> (final(self)@.is_floating(window) <==> !old(self)@
                        .is_floating(window))
                },
                Err(e) => {
                    &&& !old(self)@.is_managed(window)
                    &&& e == WMError::UnknownWindow(window)
                    &&& final(self)@ == old(self)@
                },
            },
    {
        let info = match self.tiling_wm.windows_info.get(&window) {
            None => {
                return Err(WMError::UnknownWindow(window));
            },
            Some(info) => *info,
        };
        proof {
            self@.lemma_toggle_floating(window);
        }
        take_out(&mut self.tiling_wm.tiles, window);
        match info.float_or_tile {
            FloatOrTile::Float => {
                self.floats.remove(&window);
                self.tiling_wm.tiles.push(window);
                self.tiling_wm.windows_info.insert(
                    window,
                    WindowWithInfo { float_or_tile: FloatOrTile::Tile, ..info },
                );
            },
            FloatOrTile::Tile => {
                self.floats.insert(window, info.geometry);
                self.tiling_wm.windows_info.insert(
                    window,
                    WindowWithInfo { float_or_tile: FloatOrTile::Float, ..info },
                );
            },
        }
        Ok(())
    }

    /// Move or resize a floating window. A managed window that does not
    /// float on the screen keeps its place, and that is no error. A window
    /// that is not managed is refused.
    pub fn set_window_geometry(&mut self, window: Window, new_geometry: Geometry) -> (res: Result<
        (),
        WMError,
    >)
        requires
            old(self)@.wf(),
        ensures
            final(self)@.wf(),
            old(self)@.all_shown() ==> final(self)@.all_shown(),
            match res {
                Ok(_) => {
                    &&& old(self)@.is_managed(window)
                    &&& final(self)@ == old(self)@.set_window_geometry(window, new_geometry)
                },
                Err(e) => {
                    &&& !old(self)@.is_managed(window)
                    &&& e == WMError::UnknownWindow(window)
                    &&& final(self)@ == old(self)@
                },
            },
    {
        let info = match self.tiling_wm.windows_info.get(&window) {
            None => {
                return Err(WMError::UnknownWindow(window));
            },
            Some(info) => *info,
        };
        proof {
            self@.lemma_set_window_geometry(window, new_geometry);
        }
        if self.floats.contains_key(&window) {
            self.tiling_wm.windows_info.insert(
                window,
                WindowWithInfo { geometry: new_geometry, ..info },
            );
            self.floats.insert(window, new_geometry);
        }
        Ok(())
    }
}

impl WindowManager for FloatingWM {
    type Error = WMError;

    open spec fn wf(&self) -> bool {
        self@.wf() && self@.all_shown()
    }

    open spec fn managed(&self) -> Seq<Window> {
        self@.tiling.windows
    }

    open spec fn focus(&self) -> Option<Window> {
        self@.focused()
    }

    open spec fn screen(&self) -> Screen {
        self@.tiling.screen
    }

    open spec fn lays_out(&self) -> bool {
        self@.tiling.layout_fits()
    }

    open spec fn reach(&self) -> Seq<Window> {
        self@.tiling.windows
    }

    open spec fn tells(&self, window: Window) -> bool {
        true
    }

    proof fn lemma_managed(&self) {
        if self@.focused().is_some() {
            assert(self@.tiling.windows[self@.tiling.windows.len() - 1] == self@.tiling.windows.last());
        }
    }

    proof fn lemma_tells(&self, window: Window) {
    }

    fn new(screen: Screen) -> (wm: Self)
        ensures
            wm@ == FloatingState::start(screen),
            wm@.wf(),
            wm@.all_shown(),
    {
        FloatingWM::new(screen)
    }

    fn is_valid(&self) -> (valid: bool) {
        FloatingWM::is_valid(self) && FloatingWM::shows_all(self)
    }

    fn can_lay_out(&self) -> (fits: bool)
        ensures
            fits == self@.tiling.layout_fits(),
    {
        FloatingWM::can_lay_out(self)
    }

    fn get_window_layout(&self) -> (layout: WindowLayout)
        ensures
            layout.focused_window == self@.focused(),
            layout.windows@ == self@.layout_windows(),
            layout.shows_each_once(),
            forall|w: Window| #[trigger]
                layout.shows(w) <==> self@.tiling.tiles.contains(w) || self@.floats.contains_key(w),
            self@.all_shown() ==> layout.shows_focus(),
            self@.all_shown() ==> forall|w: Window| #[trigger]
                layout.shows(w) <==> self@.is_managed(w),
    {
        FloatingWM::get_window_layout(self)
    }

    fn is_managed(&self, window: Window) -> (managed: bool)
        ensures
            managed == self@.is_managed(window),
            managed == self@.tiling.windows.contains(window),
    {
        FloatingWM::is_managed(self, window)
    }

    fn get_windows(&self) -> (windows: Vec<Window>)
        ensures
            windows@ == self@.tiling.windows,
    {
        FloatingWM::get_windows(self)
    }

    fn get_focused_window(&self) -> (focused: Option<Window>)
        ensures
            focused == self@.focused(),
    {
        FloatingWM::get_focused_window(self)
    }

    fn add_window(&mut self, window_with_info: WindowWithInfo) -> (res: Result<(), WMError>)
        ensures
            final(self)@.wf(),
            old(self)@.all_shown() ==> final(self)@.all_shown(),
            match res {
                Ok(_) => {
                    &&& !old(self)@.is_managed(window_with_info.window)
                    &&& final(self)@ == old(self)@.add_window(window_with_info)
                    &&& final(self)@.is_managed(window_with_info.window)
                    &&& final(self)@.focused() == Some(window_with_info.window)
                },
                Err(e) => {
                    &&& old(self)@.is_managed(window_with_info.window)
                    &&& e == WMError::AlreadyManagedWindow(window_with_info.window)
                    &&& final(self)@ == old(self)@
                },
            },
    {
        proof {
            if !self@.is_managed(window_with_info.window) {
                self@.tiling.lemma_add_window(window_with_info);
            }
        }
        FloatingWM::add_window(self, window_with_info)
    }

    fn remove_window(&mut self, window: Window) -> (res: Result<(), WMError>)
        ensures
            final(self)@.wf(),
            old(self)@.all_shown() ==> final(self)@.all_shown(),
            match res {
                Ok(_) => {
                    &&& old(self)@.is_managed(window)
                    &&& final(self)@ == old(self)@.remove_window(window)
                    &&& !final(self)@.is_managed(window)
                },
                Err(e) => {
                    &&& !old(self)@.is_managed(window)
                    &&& e == WMError::UnknownWindow(window)
                    &&& final(self)@ == old(self)@
                },
            },
    {
        proof {
            self@.tiling.lemma_remove_window(window);
        }
        FloatingWM::remove_window(self, window)
    }

    fn focus_window(&mut self, window: Option<Window>) -> (res: Result<(), WMError>)
        ensures
            final(self)@.wf(),
            old(self)@.all_shown() ==> final(self)@.all_shown(),
            match window {
                None => res.is_ok() && final(self)@ == old(self)@.unfocus(),
                Some(w) => match res {
                    Ok(_) => {
                        &&& old(self)@.is_managed(w)
                        &&& final(self)@ == old(self)@.focus(w)
                    },
                    Err(e) => {
                        &&& !old(self)@.is_managed(w)
                        &&& e == WMError::UnknownWindow(w)
                        &&& final(self)@ == old(self)@
                    },
                },
            },
            res.is_ok() ==> final(self)@.focused() == window,
    {
        proof {
            match window {
                Some(w) => {
                    if self@.is_managed(w) {
                        self@.tiling.lemma_focus(w);
                    }
                },
                None => {},
            }
        }
        FloatingWM::focus_window(self, window)
    }

    fn cycle_focus(&mut self, dir: PrevOrNext)
        ensures
            final(self)@.wf(),
            old(self)@.all_shown() ==> final(self)@.all_shown(),
            final(self)@ == old(self)@.cycle_focus(dir),
    {
        proof {
            self@.tiling.lemma_cycle_focus(dir);
        }
        FloatingWM::cycle_focus(self, dir)
    }

    fn get_window_info(&self, window: Window) -> (res: Result<WindowWithInfo, WMError>)
        ensures
            match res {
                Ok(info) => self@.is_managed(window) && info == self@.window_info(window),
                Err(e) => !self@.is_managed(window) && e == WMError::UnknownWindow(window),
            },
    {
        proof {
            assert(self@.tiling.windows.contains(window) ==> self@.tiling.info.contains_key(window));
        }
        FloatingWM::get_window_info(self, window)
    }

    fn get_screen(&self) -> (screen: Screen)
        ensures
            screen == self@.tiling.screen,
    {
        FloatingWM::get_screen(self)
    }

    fn resize_screen(&mut self, screen: Screen)
        ensures
            final(self)@ == old(self)@.resize_screen(screen),
            old(self)@.wf() ==> final(self)@.wf(),
            old(self)@.all_shown() ==> final(self)@.all_shown(),
    {
        FloatingWM::resize_screen(self, screen)
    }
}

impl TilingSupport for FloatingWM {
    open spec fn master(&self) -> Option<Window> {
        self@.tiling.master()
    }

    fn get_master_window(&self) -> (master: Option<Window>)
        ensures
            master == self@.tiling.master(),
    {
        proof {
            if self@.tiling.tiles.len() > 0 {
                assert(self@.tiling.tiles.contains(self@.tiling.tiles[0]));
            }
        }
        FloatingWM::get_master_window(self)
    }

    fn swap_with_master(&mut self, window: Window) -> (res: Result<(), WMError>)
        ensures
            final(self)@.wf(),
            old(self)@.all_shown() ==> final(self)@.all_shown(),
            match res {
                Ok(_) => {
                    &&& old(self)@.is_managed(window)
                    &&& final(self)@ == old(self)@.swap_with_master(window)
                    &&& old(self)@.tiling.tiles.contains(window) ==> final(self)@.tiling.master()
                        == Some(window) && final(self)@.focused() == Some(window)
                },
                Err(e) => {
                    &&& !old(self)@.is_managed(window)
                    &&& e == WMError::UnknownWindow(window)
                    &&& final(self)@ == old(self)@
                },
            },
    {
        proof {
            if self@.is_managed(window) {
                self@.tiling.lemma_swap_with_master(window);
            }
        }
        FloatingWM::swap_with_master(self, window)
    }

    fn swap_windows(&mut self, dir: PrevOrNext)
        ensures
            final(self)@.wf(),
            old(self)@.all_shown() ==> final(self)@.all_shown(),
            final(self)@ == old(self)@.swap_windows(dir),
            final(self)@.focused() == old(self)@.focused(),
    {
        proof {
            self@.tiling.lemma_swap_windows(dir);
        }
        FloatingWM::swap_windows(self, dir)
    }
}

impl FloatSupport for FloatingWM {
    open spec fn floating(&self) -> Seq<Window> {
        self@.floating_windows()
    }

    proof fn lemma_floating(&self) {
        self@.lemma_floating_windows();
    }

    fn get_floating_windows(&self) -> (floating: Vec<Window>)
        ensures
            floating@ == self@.floating_windows(),
    {
        FloatingWM::get_floating_windows(self)
    }

    fn is_floating(&self, window: Window) -> (floating: bool)
        ensures
            floating == self@.is_floating(window),
            floating == self@.floating_windows().contains(window),
            floating ==> self@.is_managed(window),
    {
        FloatingWM::is_floating(self, window)
    }

    fn toggle_floating(&mut self, window: Window) -> (res: Result<(), WMError>)
        ensures
            final(self)@.wf(),
            old(self)@.all_shown() ==> final(self)@.all_shown(),
            match res {
                Ok(_) => {
                    &&& old(self)@.is_managed(window)
                    &&& final(self)@ == old(self)@.toggle_floating(window)
                    &&& final(self)@.tiling.windows == old(self)@.tiling.windows
                    &&& old(self)@.all_shown() ==> (final(self)@.is_floating(window) <==> !old(self)@
                        .is_floating(window))
                },
                Err(e) => {
                    &&& !old(self)@.is_managed(window)
                    &&& e == WMError::UnknownWindow(window)
                    &&& final(self)@ == old(self)@
                },
            },
    {
        proof {
            if self@.is_managed(window) {
                self@.lemma_toggle_floating(window);
                self@.lemma_floating_windows();
                self@.toggle_floating(window).lemma_floating_windows();
            }
        }
        FloatingWM::toggle_floating(self, window)
    }

    fn set_window_geometry(&mut self, window: Window, new_geometry: Geometry) -> (res: Result<
        (),
        WMError,
    >)
        ensures
            final(self)@.wf(),
            old(self)@.all_shown() ==> final(self)@.all_shown(),
            match res {
                Ok(_) => {
                    &&& old(self)@.is_managed(window)
                    &&& final(self)@ == old(self)@.set_window_geometry(window, new_geometry)
                },
                Err(e) => {
                    &&& !old(self)@.is_managed(window)
                    &&& e == WMError::UnknownWindow(window)
                    &&& final(self)@ == old(self)@
                },
            },
    {
        proof {
            if self@.is_managed(window) {
                self@.lemma_set_window_geometry(window, new_geometry);
            }
        }
        FloatingWM::set_window_geometry(self, window, new_geometry)
    }
}

} // verus!
