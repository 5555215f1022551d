//! Minimised windows on top of the floating window manager.
//!
//! A minimised window stays managed, but it is neither a tile nor afloat:
//! the layout does not show it. What is recorded about it is kept, so that
//! it can come back as what it was.

use vstd::prelude::*;
use crate::floating::{FloatingState, FloatingWM};
use crate::order::{
    find_last_not_in, has_no_duplicates, holds, last_not_in, lemma_last_not_in, lemma_push,
    lemma_rotated, lemma_swapped, lemma_to_back, lemma_without, lemma_without_keeps_last,
    take_out, without,
};
use crate::tiling::TilingState;
use crate::types::{
    FloatOrTile, Geometry, lists, PrevOrNext, Screen, Window, WindowLayout, WindowWithInfo,
};
use crate::wm::{FloatSupport, MinimiseSupport, TilingSupport, WindowManager};
use crate::wm_error::WMError;

verus! {

broadcast use vstd::std_specs::hash::group_hash_axioms;

/// The state of a window manager with tiles, floating windows and minimised
/// windows.
pub struct MinimiseState {
    /// The state of the floating window manager underneath.
    pub floating: FloatingState,
    /// The minimised windows, the one that was minimised first in front.
    pub minimised: Seq<Window>,
}

impl MinimiseState {
    /// The state of a window manager without windows.
    pub open spec fn start(screen: Screen) -> MinimiseState {
        MinimiseState { floating: FloatingState::start(screen), minimised: Seq::empty() }
    }

    /// The managed windows in focus order.
    #[verifier::inline]
    pub open spec fn windows(self) -> Seq<Window> {
        self.floating.tiling.windows
    }

    /// The tiles.
    #[verifier::inline]
    pub open spec fn tiles(self) -> Seq<Window> {
        self.floating.tiling.tiles
    }

    /// The geometry of each window that floats on the screen.
    #[verifier::inline]
    pub open spec fn floats(self) -> Map<Window, Geometry> {
        self.floating.floats
    }

    /// What is recorded about each managed window.
    #[verifier::inline]
    pub open spec fn info(self) -> Map<Window, WindowWithInfo> {
        self.floating.tiling.info
    }

    /// The state with another state of the floating window manager.
    pub open spec fn with_floating(self, floating: FloatingState) -> MinimiseState {
        MinimiseState { floating, ..self }
    }

    /// The windows are where they belong: a managed window is minimised
    /// exactly if it is neither a tile nor afloat, and no window is
    /// minimised twice.
    pub open spec fn consistent(self) -> bool {
        &&& self.floating.wf()
        &&& self.minimised.no_duplicates()
        &&& forall|w: Window| #[trigger]
            self.minimised.contains(w) ==> {
                &&& self.windows().contains(w)
                &&& !self.tiles().contains(w)
                &&& !self.floats().contains_key(w)
            }
        &&& forall|w: Window| #[trigger]
            self.windows().contains(w) && !self.minimised.contains(w) ==> self.tiles().contains(w)
                || self.floats().contains_key(w)
    }

    /// The state is well-formed: the windows are where they belong, and the
    /// focused window is not minimised.
    pub open spec fn wf(self) -> bool {
        &&& self.consistent()
        &&& match self.focused() {
            Some(f) => !self.minimised.contains(f),
            None => true,
        }
    }

    /// Whether `w` is managed.
    pub open spec fn is_managed(self, w: Window) -> bool {
        self.windows().contains(w)
    }

    /// Whether `w` is minimised.
    pub open spec fn is_minimised(self, w: Window) -> bool {
        self.minimised.contains(w)
    }

    /// The focused window.
    pub open spec fn focused(self) -> Option<Window> {
        self.floating.focused()
    }

    /// The state after the minimised window `w` has come back: afloat with
    /// the geometry that is recorded for it, or else as the last tile.
    pub open spec fn show(self, w: Window) -> MinimiseState {
        MinimiseState {
            floating: if self.info()[w].float_or_tile == FloatOrTile::Float {
                FloatingState {
                    floats: self.floats().insert(w, self.info()[w].geometry),
                    ..self.floating
                }
            } else {
                FloatingState {
                    tiling: TilingState { tiles: self.tiles().push(w), ..self.floating.tiling },
                    ..self.floating
                }
            },
            minimised: without(self.minimised, w),
        }
    }

    /// The state in which `w` is on the screen: it comes back if it was
    /// minimised.
    pub open spec fn bring_up(self, w: Window) -> MinimiseState {
        if self.minimised.contains(w) {
            self.show(w)
        } else {
            self
        }
    }

    /// The state after the window `w` has left the screen and joined the
    /// minimised windows.
    pub open spec fn put_away(self, w: Window) -> MinimiseState {
        MinimiseState {
            floating: FloatingState {
                tiling: TilingState { tiles: without(self.tiles(), w), ..self.floating.tiling },
                floats: self.floats().remove(w),
            },
            minimised: self.minimised.push(w),
        }
    }

    /// The state after the focus has left a minimised window: it goes to
    /// the nearest window before it in focus order that is not minimised,
    /// or to no window where all are minimised. A focus that is not on a
    /// minimised window stays.
    pub open spec fn refocus(self) -> MinimiseState {
        match self.focused() {
            Some(f) if self.minimised.contains(f) => match last_not_in(
                self.windows(),
                self.minimised,
            ) {
                Some(v) => self.with_floating(self.floating.focus(v)),
                None => self.with_floating(self.floating.unfocus()),
            },
            _ => self,
        }
    }

    /// The state after the minimised window `w` has come back and got the
    /// focus.
    pub open spec fn unminimise(self, w: Window) -> MinimiseState {
        self.show(w).with_floating(self.show(w).floating.focus(w))
    }

    /// The state after the window `w` has been minimised.
    pub open spec fn minimise(self, w: Window) -> MinimiseState {
        self.put_away(w).refocus()
    }

    /// The state after the managed window `w` has been minimised, or has
    /// come back if it was minimised.
    pub open spec fn toggle_minimised(self, w: Window) -> MinimiseState {
        if self.minimised.contains(w) {
            self.unminimise(w)
        } else {
            self.minimise(w)
        }
    }

    /// The state in which `w` is on the screen, focused if it had to come
    /// back.
    pub open spec fn restore(self, w: Window) -> MinimiseState {
        if self.minimised.contains(w) {
            self.unminimise(w)
        } else {
            self
        }
    }

    /// The state after the unmanaged window of `info` has been added.
    pub open spec fn add_window(self, info: WindowWithInfo) -> MinimiseState {
        self.with_floating(self.floating.add_window(info))
    }

    /// The state after the managed window `w` has been removed. A
    /// minimised window comes back before it goes.
    pub open spec fn remove_window(self, w: Window) -> MinimiseState {
        let s = self.restore(w);
        s.with_floating(s.floating.remove_window(w)).refocus()
    }

    /// The state after the focus has gone to the managed window `w`, which
    /// comes back if it was minimised.
    pub open spec fn focus(self, w: Window) -> MinimiseState {
        let s = self.bring_up(w);
        s.with_floating(s.floating.focus(w))
    }

    /// The state after the focus has been taken away.
    pub open spec fn unfocus(self) -> MinimiseState {
        self.with_floating(self.floating.unfocus())
    }

    /// The state after the focus has moved to the previous or next window,
    /// which comes back if it was minimised.
    pub open spec fn cycle_focus(self, dir: PrevOrNext) -> MinimiseState {
        if self.windows().len() == 0 {
            self
        } else {
            let s = self.with_floating(self.floating.cycle_focus(dir));
            s.bring_up(s.windows().last())
        }
    }

    /// The state after the managed window `w` has been exchanged with the
    /// master window. A window recorded as floating stays where it is,
    /// minimised or not; a minimised tile comes back first.
    pub open spec fn swap_with_master(self, w: Window) -> MinimiseState {
        if self.info()[w].float_or_tile == FloatOrTile::Float {
            self
        } else {
            let s = self.bring_up(w);
            s.with_floating(s.floating.swap_with_master(w))
        }
    }

    /// The state after the focused tile has been exchanged with its
    /// neighbour.
    pub open spec fn swap_windows(self, dir: PrevOrNext) -> MinimiseState {
        self.with_floating(self.floating.swap_windows(dir))
    }

    /// The state after the managed window `w` has changed between floating
    /// and tiling. A minimised window comes back first.
    pub open spec fn toggle_floating(self, w: Window) -> MinimiseState {
        let s = self.restore(w);
        s.with_floating(s.floating.toggle_floating(w))
    }

    /// The state after the managed window `w` has been given the geometry
    /// `g`. A minimised window that is recorded as floating comes back
    /// first; a tile keeps its place.
    pub open spec fn set_window_geometry(self, w: Window, g: Geometry) -> MinimiseState {
        let s = if self.info()[w].float_or_tile == FloatOrTile::Float {
            self.restore(w)
        } else {
            self
        };
        s.with_floating(s.floating.set_window_geometry(w, g))
    }

    /// The state after the screen has changed.
    pub open spec fn resize_screen(self, screen: Screen) -> MinimiseState {
        self.with_floating(self.floating.resize_screen(screen))
    }

    /// A minimised window that comes back is on the screen, and the other
    /// windows stay where they are.
    pub proof fn lemma_show(self, w: Window)
        requires
            self.consistent(),
            self.minimised.contains(w),
        ensures
            self.show(w).consistent(),
            self.wf() ==> self.show(w).wf(),
            self.show(w).windows() == self.windows(),
            self.show(w).info() == self.info(),
            self.show(w).focused() == self.focused(),
            !self.show(w).minimised.contains(w),
            forall|x: Window|
                x != w ==> (#[trigger] self.show(w).minimised.contains(x)
                    <==> self.minimised.contains(x)),
            self.info()[w].float_or_tile == FloatOrTile::Tile ==> self.show(w).tiles().contains(w),
    {
        let t = self.show(w);
        lemma_without(self.minimised, w);
        assert(self.info().contains_key(w));
        if self.info()[w].float_or_tile == FloatOrTile::Tile {
            lemma_push(self.tiles(), w);
        }
        assert(t.floating.tiling.wf());
        assert(t.floating.wf());
    }

    /// A window that is on the screen or not is on the screen after
    /// `bring_up`, and the state stays well-formed.
    pub proof fn lemma_bring_up(self, w: Window)
        requires
            self.consistent(),
            self.is_managed(w),
        ensures
            self.bring_up(w).consistent(),
            self.wf() ==> self.bring_up(w).wf(),
            self.bring_up(w).windows() == self.windows(),
            self.bring_up(w).info() == self.info(),
            self.bring_up(w).focused() == self.focused(),
            !self.bring_up(w).minimised.contains(w),
            forall|x: Window|
                x != w ==> (#[trigger] self.bring_up(w).minimised.contains(x)
                    <==> self.minimised.contains(x)),
            self.info()[w].float_or_tile == FloatOrTile::Tile ==> self.bring_up(w).tiles().contains(
                w,
            ),
    {
        if self.minimised.contains(w) {
            self.lemma_show(w);
        } else {
            assert(self.info().contains_key(w));
        }
    }

    /// A window that leaves the screen is minimised, and the other windows
    /// stay where they are.
    pub proof fn lemma_put_away(self, w: Window)
        requires
            self.consistent(),
            self.is_managed(w),
            !self.minimised.contains(w),
        ensures
            self.put_away(w).consistent(),
            self.put_away(w).windows() == self.windows(),
            self.put_away(w).info() == self.info(),
            self.put_away(w).focused() == self.focused(),
            self.put_away(w).minimised == self.minimised.push(w),
            forall|x: Window| #[trigger]
                self.put_away(w).minimised.contains(x) <==> self.minimised.contains(x) || x == w,
    {
        let t = self.put_away(w);
        lemma_without(self.tiles(), w);
        lemma_push(self.minimised, w);
        assert(t.floating.tiling.wf());
        assert(t.floating.wf());
    }

    /// After `refocus` the focused window is not minimised, and nothing
    /// else has changed.
    pub proof fn lemma_refocus(self)
        requires
            self.consistent(),
        ensures
            self.refocus().wf(),
            self.refocus().minimised == self.minimised,
            self.refocus().tiles() == self.tiles(),
            self.refocus().floats() == self.floats(),
            self.refocus().info() == self.info(),
            forall|x: Window| #[trigger]
                self.refocus().windows().contains(x) <==> self.windows().contains(x),
            self.wf() ==> self.refocus() == self,
    {
        match self.focused() {
            Some(f) if self.minimised.contains(f) => {
                lemma_last_not_in(self.windows(), self.minimised);
                match last_not_in(self.windows(), self.minimised) {
                    Some(v) => {
                        self.floating.tiling.lemma_focus(v);
                        self.floating.lemma_focus_ops(v, PrevOrNext::Next);
                    },
                    None => {
                        self.floating.lemma_focus_ops(0, PrevOrNext::Next);
                    },
                }
            },
            _ => {},
        }
    }

    /// A minimised window that comes back is focused and on the screen.
    pub proof fn lemma_unminimise(self, w: Window)
        requires
            self.wf(),
            self.minimised.contains(w),
        ensures
            self.unminimise(w).wf(),
            self.unminimise(w).focused() == Some(w),
            !self.unminimise(w).minimised.contains(w),
            self.unminimise(w).info() == self.info(),
            forall|x: Window|
                x != w ==> (#[trigger] self.unminimise(w).minimised.contains(x)
                    <==> self.minimised.contains(x)),
            forall|x: Window| #[trigger]
                self.unminimise(w).windows().contains(x) <==> self.windows().contains(x),
    {
        self.lemma_show(w);
        self.show(w).lemma_focus_shown(w);
    }

    /// Focusing a window that is on the screen keeps the state well-formed.
    pub proof fn lemma_focus_shown(self, w: Window)
        requires
            self.consistent(),
            self.is_managed(w),
            !self.minimised.contains(w),
        ensures
            self.with_floating(self.floating.focus(w)).wf(),
            self.with_floating(self.floating.focus(w)).focused() == Some(w),
            forall|x: Window| #[trigger]
                self.floating.focus(w).tiling.windows.contains(x) <==> self.windows().contains(x),
    {
        self.floating.tiling.lemma_focus(w);
        self.floating.lemma_focus_ops(w, PrevOrNext::Next);
    }

    /// A window that is minimised is no longer on the screen, and the focus
    /// is not on it.
    pub proof fn lemma_minimise(self, w: Window)
        requires
            self.wf(),
            self.is_managed(w),
            !self.minimised.contains(w),
        ensures
            self.minimise(w).wf(),
            self.minimise(w).minimised == self.minimised.push(w),
            self.minimise(w).minimised.contains(w),
            self.minimise(w).focused() != Some(w),
            self.minimise(w).info() == self.info(),
            self.focused() != Some(w) ==> self.minimise(w).focused() == self.focused(),
            forall|x: Window| #[trigger]
                self.minimise(w).windows().contains(x) <==> self.windows().contains(x),
    {
        self.lemma_put_away(w);
        self.put_away(w).lemma_refocus();
        assert(self.put_away(w).minimised.contains(w));
        if self.focused() != Some(w) {
            assert(self.put_away(w).wf());
        }
    }

    /// Toggling keeps the state well-formed and changes whether the window
    /// is minimised.
    pub proof fn lemma_toggle_minimised(self, w: Window)
        requires
            self.wf(),
            self.is_managed(w),
        ensures
            self.toggle_minimised(w).wf(),
            self.toggle_minimised(w).is_minimised(w) <==> !self.is_minimised(w),
            self.toggle_minimised(w).info() == self.info(),
            forall|x: Window| #[trigger]
                self.toggle_minimised(w).windows().contains(x) <==> self.windows().contains(x),
    {
        if self.minimised.contains(w) {
            self.lemma_unminimise(w);
        } else {
            self.lemma_minimise(w);
        }
    }

    /// `restore` keeps the state well-formed and puts the window on the
    /// screen.
    pub proof fn lemma_restore(self, w: Window)
        requires
            self.wf(),
            self.is_managed(w),
        ensures
            self.restore(w).wf(),
            !self.restore(w).minimised.contains(w),
            self.restore(w).info() == self.info(),
            self.minimised.contains(w) ==> self.restore(w).focused() == Some(w),
            !self.minimised.contains(w) ==> self.restore(w) == self,
            forall|x: Window|
                x != w ==> (#[trigger] self.restore(w).minimised.contains(x)
                    <==> self.minimised.contains(x)),
            forall|x: Window| #[trigger]
                self.restore(w).windows().contains(x) <==> self.windows().contains(x),
    {
        if self.minimised.contains(w) {
            self.lemma_unminimise(w);
        }
    }

    /// Adding an unmanaged window keeps the state well-formed; the window
    /// is on the screen and focused.
    pub proof fn lemma_add_window(self, info: WindowWithInfo)
        requires
            self.wf(),
            !self.is_managed(info.window),
        ensures
            self.add_window(info).wf(),
            self.add_window(info).is_managed(info.window),
            self.add_window(info).focused() == Some(info.window),
            self.add_window(info).minimised == self.minimised,
            forall|x: Window| #[trigger]
                self.add_window(info).windows().contains(x) <==> self.windows().contains(x) || x
                    == info.window,
    {
        self.floating.lemma_add_window(info);
        self.floating.tiling.lemma_add_window(info);
        let t = self.add_window(info);
        lemma_push(self.windows(), info.window);
        assert forall|w: Window| #[trigger] t.minimised.contains(w) implies {
            &&& t.windows().contains(w)
            &&& !t.tiles().contains(w)
            &&& !t.floats().contains_key(w)
        } by {
            assert(self.minimised.contains(w));
            assert(w != info.window);
            if info.float_or_tile == FloatOrTile::Tile {
                if self.tiles().contains(info.window) {
                    assert(self.windows().contains(info.window));
                }
                lemma_push(self.tiles(), info.window);
            }
        }
        assert forall|w: Window| #[trigger]
            t.windows().contains(w) && !t.minimised.contains(w) implies t.tiles().contains(w)
            || t.floats().contains_key(w) by {
            if info.float_or_tile == FloatOrTile::Tile {
                if self.tiles().contains(info.window) {
                    assert(self.windows().contains(info.window));
                }
                lemma_push(self.tiles(), info.window);
            }
            if w != info.window {
                assert(self.windows().contains(w));
            }
        }
    }

    /// Removing a managed window keeps the state well-formed, and exactly
    /// that window is no longer managed. The focus stays on another window
    /// that had it.
    pub proof fn lemma_remove_window(self, w: Window)
        requires
            self.wf(),
            self.is_managed(w),
        ensures
            self.remove_window(w).wf(),
            !self.remove_window(w).is_managed(w),
            !self.remove_window(w).minimised.contains(w),
            forall|x: Window| #[trigger]
                self.remove_window(w).windows().contains(x) <==> self.windows().contains(x) && x
                    != w,
            forall|x: Window|
                x != w ==> (#[trigger] self.remove_window(w).minimised.contains(x)
                    <==> self.minimised.contains(x)),
            forall|x: Window|
                x != w ==> #[trigger] self.remove_window(w).info()[x] == self.info()[x],
            self.focused().is_some() && self.focused() != Some(w) ==> self.remove_window(
                w,
            ).focused() == self.focused(),
    {
        self.lemma_restore(w);
        let s = self.restore(w);
        s.floating.lemma_remove_window(w);
        s.floating.tiling.lemma_remove_window(w);
        let r = s.with_floating(s.floating.remove_window(w));
        assert(r.consistent());
        r.lemma_refocus();
        if self.focused().is_some() && self.focused() != Some(w) {
            let f = self.focused().unwrap();
            if self.minimised.contains(w) {
                lemma_to_back(self.windows(), w);
                crate::order::lemma_to_back_without(self.windows(), w);
            }
            lemma_without_keeps_last(self.windows(), w);
            assert(r.windows() == without(self.windows(), w));
            assert(r.focused() == Some(f));
            assert(!r.minimised.contains(f));
        }
    }

    /// Focusing a managed window keeps the state well-formed; the window is
    /// on the screen and focused.
    pub proof fn lemma_focus(self, w: Window)
        requires
            self.wf(),
            self.is_managed(w),
        ensures
            self.focus(w).wf(),
            self.focus(w).focused() == Some(w),
            !self.focus(w).minimised.contains(w),
            self.focus(w).info() == self.info(),
            self.focused() == Some(w) ==> self.focus(w) == self,
            forall|x: Window|
                x != w ==> (#[trigger] self.focus(w).minimised.contains(x)
                    <==> self.minimised.contains(x)),
            forall|x: Window| #[trigger]
                self.focus(w).windows().contains(x) <==> self.windows().contains(x),
    {
        self.lemma_bring_up(w);
        self.bring_up(w).lemma_focus_shown(w);
        if self.focused() == Some(w) {
            self.floating.tiling.lemma_focus(w);
        }
    }

    /// Taking the focus away keeps the state well-formed.
    pub proof fn lemma_unfocus(self)
        requires
            self.wf(),
        ensures
            self.unfocus().wf(),
            self.unfocus().focused().is_none(),
    {
        self.floating.lemma_focus_ops(0, PrevOrNext::Next);
    }

    /// Moving the focus keeps the state well-formed and the same windows
    /// managed.
    pub proof fn lemma_cycle_focus(self, dir: PrevOrNext)
        requires
            self.wf(),
        ensures
            self.cycle_focus(dir).wf(),
            self.cycle_focus(dir).info() == self.info(),
            self.windows().len() > 0 ==> self.cycle_focus(dir).focused().is_some(),
            self.windows().len() <= 1 && self.focused().is_some() ==> self.cycle_focus(dir)
                == self,
            forall|x: Window| #[trigger]
                self.cycle_focus(dir).windows().contains(x) <==> self.windows().contains(x),
    {
        if self.windows().len() > 0 {
            self.floating.lemma_focus_ops(0, dir);
            self.floating.tiling.lemma_cycle_focus(dir);
            lemma_rotated(self.windows(), dir);
            let s = self.with_floating(self.floating.cycle_focus(dir));
            assert(s.consistent());
            let f = s.windows().last();
            assert(s.windows().contains(f)) by {
                assert(s.windows()[s.windows().len() - 1] == f);
            }
            s.lemma_bring_up(f);
            if self.windows().len() == 1 && self.focused().is_some() {
                assert(s == self);
            }
        }
    }

    /// Swapping with the master keeps the state well-formed. A window that
    /// is recorded as tiled is the master and focused afterwards.
    pub proof fn lemma_swap_with_master(self, w: Window)
        requires
            self.wf(),
            self.is_managed(w),
        ensures
            self.swap_with_master(w).wf(),
            self.swap_with_master(w).info() == self.info(),
            self.info()[w].float_or_tile == FloatOrTile::Tile ==> {
                &&& self.swap_with_master(w).floating.tiling.master() == Some(w)
                &&& self.swap_with_master(w).focused() == Some(w)
                &&& !self.swap_with_master(w).minimised.contains(w)
            },
            forall|x: Window| #[trigger]
                self.swap_with_master(w).windows().contains(x) <==> self.windows().contains(x),
    {
        assert(self.info().contains_key(w));
        if self.info()[w].float_or_tile == FloatOrTile::Tile {
            self.lemma_bring_up(w);
            let s = self.bring_up(w);
            s.floating.lemma_focus_ops(w, PrevOrNext::Next);
            s.floating.tiling.lemma_swap_with_master(w);
        }
    }

    /// Swapping the focused tile keeps the state well-formed and the focus
    /// where it is.
    pub proof fn lemma_swap_windows(self, dir: PrevOrNext)
        requires
            self.wf(),
        ensures
            self.swap_windows(dir).wf(),
            self.swap_windows(dir).focused() == self.focused(),
            self.swap_windows(dir).minimised == self.minimised,
            self.swap_windows(dir).windows() == self.windows(),
            self.swap_windows(dir).info() == self.info(),
    {
        self.floating.lemma_focus_ops(0, dir);
        self.floating.tiling.lemma_swap_windows(dir);
    }

    /// Toggling between floating and tiling keeps the state well-formed.
    pub proof fn lemma_toggle_floating(self, w: Window)
        requires
            self.wf(),
            self.is_managed(w),
        ensures
            self.toggle_floating(w).wf(),
            self.toggle_floating(w).is_floating(w) <==> self.info()[w].float_or_tile
                == FloatOrTile::Tile,
            !self.toggle_floating(w).minimised.contains(w),
            self.minimised.contains(w) ==> self.toggle_floating(w).focused() == Some(w),
            !self.minimised.contains(w) ==> self.toggle_floating(w).focused() == self.focused(),
            forall|x: Window| #[trigger]
                self.toggle_floating(w).windows().contains(x) <==> self.windows().contains(x),
    {
        self.lemma_restore(w);
        let s = self.restore(w);
        s.floating.lemma_toggle_floating(w);
    }

    /// Whether `w` floats on the screen.
    pub open spec fn is_floating(self, w: Window) -> bool {
        self.floating.is_floating(w)
    }

    /// Setting a geometry keeps the state well-formed.
    pub proof fn lemma_set_window_geometry(self, w: Window, g: Geometry)
        requires
            self.wf(),
            self.is_managed(w),
        ensures
            self.set_window_geometry(w, g).wf(),
            self.minimised.contains(w) && self.info()[w].float_or_tile == FloatOrTile::Float
                ==> self.set_window_geometry(w, g).focused() == Some(w),
            !(self.minimised.contains(w) && self.info()[w].float_or_tile == FloatOrTile::Float)
                ==> self.set_window_geometry(w, g).focused() == self.focused()
                && self.set_window_geometry(w, g).minimised == self.minimised,
            forall|x: Window| #[trigger]
                self.set_window_geometry(w, g).windows().contains(x) <==> self.windows().contains(
                    x,
                ),
    {
        assert(self.info().contains_key(w));
        if self.info()[w].float_or_tile == FloatOrTile::Float {
            self.lemma_restore(w);
            let s = self.restore(w);
            s.floating.lemma_set_window_geometry(w, g);
        } else {
            self.floating.lemma_set_window_geometry(w, g);
        }
    }
}

impl MinimiseState {
    /// The layout places exactly the managed windows that are not
    /// minimised, and the focused window is one of them.
    pub proof fn lemma_layout_lists(self, w: Window)
        requires
            self.wf(),
        ensures
            lists(self.floating.layout_windows(), w) <==> self.is_managed(w) && !self.is_minimised(
                w,
            ),
            self.focused() == Some(w) ==> lists(self.floating.layout_windows(), w),
    {
        self.floating.lemma_layout_lists(w);
        if self.focused() == Some(w) {
            assert(self.windows()[self.windows().len() - 1] == w);
            assert(self.windows().contains(w));
        }
    }

    /// A window that floats on the screen does not float after it has been
    /// toggled.
    pub proof fn lemma_toggle_floating_sinks(self, w: Window)
        requires
            self.wf(),
            self.floating.floating_windows().contains(w),
        ensures
            self.is_managed(w),
            !self.is_minimised(w),
            !self.toggle_floating(w).floating.floating_windows().contains(w),
    {
        self.floating.lemma_floating_windows();
        assert(self.floats().contains_key(w));
        self.lemma_restore(w);
        self.floating.lemma_toggle_floating(w);
        self.lemma_toggle_floating(w);
        self.toggle_floating(w).floating.lemma_floating_windows();
    }

    /// Toggling a window that is not minimised twice leaves it floating
    /// exactly if it floated before.
    pub proof fn lemma_toggle_floating_twice(self, w: Window)
        requires
            self.wf(),
            self.is_managed(w),
            !self.is_minimised(w),
        ensures
            self.toggle_floating(w).toggle_floating(w).is_floating(w) == self.is_floating(w),
    {
        self.lemma_toggle_floating(w);
        self.floating.lemma_toggle_shown_twice(w);
        let t = self.toggle_floating(w);
        assert(!t.minimised.contains(w));
    }

    /// Minimising a window and bringing it back leaves it not minimised,
    /// focused and on the screen.
    pub proof fn lemma_toggle_minimised_twice(self, w: Window)
        requires
            self.wf(),
            self.is_managed(w),
            !self.is_minimised(w),
        ensures
            !self.toggle_minimised(w).toggle_minimised(w).is_minimised(w),
            self.toggle_minimised(w).toggle_minimised(w).focused() == Some(w),
            self.toggle_minimised(w).toggle_minimised(w).minimised == self.minimised,
    {
        self.lemma_minimise(w);
        let t = self.toggle_minimised(w);
        assert(t.windows().contains(w));
        t.lemma_unminimise(w);
        lemma_push(self.minimised, w);
    }
}

/// A window manager with tiles, floating windows and minimised windows.
#[derive(Clone, Debug)]
pub struct MinimiseWM {
    /// The floating window manager underneath.
    pub floating_wm: FloatingWM,
    /// The minimised windows, the one that was minimised first in front.
    pub minimised: Vec<Window>,
}

impl View for MinimiseWM {
    type V = MinimiseState;

    open spec fn view(&self) -> MinimiseState {
        MinimiseState { floating: self.floating_wm@, minimised: self.minimised@ }
    }
}

impl MinimiseWM {
    /// A window manager without windows for the given screen.
    pub fn new(screen: Screen) -> (wm: MinimiseWM)
        ensures
            wm@ == MinimiseState::start(screen),
            wm@.wf(),
    {
        MinimiseWM { floating_wm: FloatingWM::new(screen), minimised: Vec::new() }
    }

    /// Tell whether the window manager is well-formed. A window manager
    /// that was made by `new` and changed by its operations is; one that
    /// was put together from parts has to be checked.
    pub fn is_valid(&self) -> (valid: bool)
        ensures
            valid == self@.wf(),
    {
        if !self.floating_wm.is_valid() || !has_no_duplicates(&self.minimised) {
            return false;
        }
        let mut i: usize = 0;
        while i < self.minimised.len()
            invariant
                i <= self@.minimised.len(),
                forall|k: int|
                    0 <= k < i ==> {
                        &&& self@.windows().contains(#[trigger] self@.minimised[k])
                        &&& !self@.tiles().contains(self@.minimised[k])
                        &&& !self@.floats().contains_key(self@.minimised[k])
                    },
            decreases self@.minimised.len() - i,
        {
            let window = self.minimised[i];
            assert(self@.minimised.contains(window));
            if !holds(&self.floating_wm.tiling_wm.windows, window) || holds(
                &self.floating_wm.tiling_wm.tiles,
                window,
            ) || self.floating_wm.floats.contains_key(&window) {
                return false;
            }
            i = i + 1;
        }
        let mut j: usize = 0;
        while j < self.floating_wm.tiling_wm.windows.len()
            invariant
                j <= self@.windows().len(),
                forall|k: int|
                    0 <= k < j && !self@.minimised.contains(#[trigger] self@.windows()[k])
                        ==> self@.tiles().contains(self@.windows()[k])
                        || self@.floats().contains_key(self@.windows()[k]),
            decreases self@.windows().len() - j,
        {
            let window = self.floating_wm.tiling_wm.windows[j];
            assert(self@.windows().contains(window));
            if !holds(&self.minimised, window) && !holds(&self.floating_wm.tiling_wm.tiles, window)
                && !self.floating_wm.floats.contains_key(&window) {
                return false;
            }
            j = j + 1;
        }
        proof {
            assert forall|w: Window| #[trigger] self@.minimised.contains(w) implies {
                &&& self@.windows().contains(w)
                &&& !self@.tiles().contains(w)
                &&& !self@.floats().contains_key(w)
            } by {
                let k = choose|k: int| 0 <= k < self@.minimised.len() && self@.minimised[k] == w;
                assert(self@.windows().contains(self@.minimised[k]));
            }
            assert forall|w: Window| #[trigger]
                self@.windows().contains(w) && !self@.minimised.contains(
                    w,
                ) implies self@.tiles().contains(w) || self@.floats().contains_key(w) by {
                let k = choose|k: int| 0 <= k < self@.windows().len() && self@.windows()[k] == w;
                assert(!self@.minimised.contains(self@.windows()[k]));
            }
        }
        match self.floating_wm.get_focused_window() {
            Some(focused) => !holds(&self.minimised, focused),
            None => true,
        }
    }

    /// Tell whether the layout can be written down: whether the offsets of
    /// all tiles fit the signed coordinates of a geometry.
    pub fn can_lay_out(&self) -> (fits: bool)
        ensures
            fits == self@.floating.tiling.layout_fits(),
    {
        self.floating_wm.can_lay_out()
    }

    /// Return the managed windows in focus order, the minimised ones among
    /// them.
    pub fn get_windows(&self) -> (windows: Vec<Window>)
        ensures
            windows@ == self@.windows(),
    {
        self.floating_wm.get_windows()
    }

    /// Tell whether `window` is managed: whether `get_windows` lists it.
    pub fn is_managed(&self, window: Window) -> (managed: bool)
        ensures
            managed == self@.is_managed(window),
            managed == self@.windows().contains(window),
    {
        self.floating_wm.is_managed(window)
    }

    /// Return the focused window, if there is one.
    pub fn get_focused_window(&self) -> (focused: Option<Window>)
        ensures
            focused == self@.focused(),
    {
        self.floating_wm.get_focused_window()
    }

    /// Return what is recorded about a managed window.
    fn recorded(&self, window: Window) -> (info: WindowWithInfo)
        requires
            self@.floating.tiling.wf(),
            self@.is_managed(window),
        ensures
            info == self@.info()[window],
    {
        assert(self@.info().contains_key(window));
        match self.floating_wm.tiling_wm.windows_info.get(&window) {
            Some(info) => *info,
            None => WindowWithInfo::new_tiled(window, self.floating_wm.get_screen().to_geometry()),
        }
    }

    /// Bring a minimised window back to the screen.
    fn show(&mut self, window: Window)
        requires
            old(self)@.wf(),
            old(self)@.minimised.contains(window),
        ensures
            final(self)@ == old(self)@.show(window),
            final(self)@.wf(),
    {
        proof {
            self@.lemma_show(window);
        }
        let info = self.recorded(window);
        match info.float_or_tile {
            FloatOrTile::Float => {
                self.floating_wm.floats.insert(window, info.geometry);
            },
            FloatOrTile::Tile => {
                self.floating_wm.tiling_wm.tiles.push(window);
            },
        }
        take_out(&mut self.minimised, window);
    }

    /// Bring a window back to the screen if it is minimised.
    fn bring_up(&mut self, window: Window)
        requires
            old(self)@.wf(),
            old(self)@.is_managed(window),
        ensures
            final(self)@ == old(self)@.bring_up(window),
            final(self)@.wf(),
    {
        proof {
            self@.lemma_bring_up(window);
        }
        if holds(&self.minimised, window) {
            self.show(window);
        }
    }

    /// Bring a window back to the screen and focus it if it is minimised.
    fn restore(&mut self, window: Window)
        requires
            old(self)@.wf(),
            old(self)@.is_managed(window),
        ensures
            final(self)@ == old(self)@.restore(window),
            final(self)@.wf(),
    {
        proof {
            self@.lemma_restore(window);
        }
        if holds(&self.minimised, window) {
            self.show(window);
            let _ = self.floating_wm.focus_window(Some(window));
        }
    }

    /// Move the focus away from a minimised window.
    fn refocus(&mut self)
        requires
            old(self)@.consistent(),
        ensures
            final(self)@ == old(self)@.refocus(),
            final(self)@.wf(),
    {
        proof {
            self@.lemma_refocus();
            lemma_last_not_in(self@.windows(), self@.minimised);
        }
        match self.floating_wm.get_focused_window() {
            None => {},
            Some(focused) => {
                if holds(&self.minimised, focused) {
                    let visible = find_last_not_in(
                        &self.floating_wm.tiling_wm.windows,
                        &self.minimised,
                    );
                    let _ = self.floating_wm.focus_window(visible);
                }
            },
        }
    }

    /// Add a window and focus it. A window that is already managed is
    /// refused.
    pub fn add_window(&mut self, window_with_info: WindowWithInfo) -> (res: Result<(), WMError>)
        requires
            old(self)@.wf(),
        ensures
            final(self)@.wf(),
            match res {
                Ok(_) => {
                    &&& !old(self)@.is_managed(window_with_info.window)
                    &&& final(self)@ == old(self)@.add_window(window_with_info)
                    &&& final(self)@.is_managed(window_with_info.window)
                    &&& final(self)@.focused() == Some(window_with_info.window)
                },
                Err(e) => {
                    &&& old(self)@.is_managed(window_with_info.window)
                    &&& e == WMError::AlreadyManagedWindow(window_with_info.window)
                    &&& final(self)@ == old(self)@
                },
            },
    {
        proof {
            if !self@.is_managed(window_with_info.window) {
                self@.lemma_add_window(window_with_info);
            }
        }
        self.floating_wm.add_window(window_with_info)
    }

    /// Remove a window, wherever it is. A minimised window comes back
    /// before it goes. If the focus is left on a minimised window, it moves
    /// on to the nearest window before it that is on the screen. A window
    /// that is not managed is refused.
    pub fn remove_window(&mut self, window: Window) -> (res: Result<(), WMError>)
        requires
            old(self)@.wf(),
        ensures
            final(self)@.wf(),
            match res {
                Ok(_) => {
                    &&& old(self)@.is_managed(window)
                    &&& final(self)@ == old(self)@.remove_window(window)
                    &&& !final(self)@.is_managed(window)
                },
                Err(e) => {
                    &&& !old(self)@.is_managed(window)
                    &&& e == WMError::UnknownWindow(window)
                    &&& final(self)@ == old(self)@
                },
            },
    {
        if !self.floating_wm.is_managed(window) {
            return Err(WMError::UnknownWindow(window));
        }
        proof {
            self@.lemma_remove_window(window);
            self@.lemma_restore(window);
            self@.restore(window).floating.lemma_remove_window(window);
            self@.restore(window).floating.tiling.lemma_remove_window(window);
        }
        self.restore(window);
        let _ = self.floating_wm.remove_window(window);
        self.refocus();
        Ok(())
    }

    /// Return the layout: the tiles, above them the floating windows in
    /// focus order, and the focused window. Minimised windows are not
    /// shown.
    pub fn get_window_layout(&self) -> (layout: WindowLayout)
        requires
            self@.wf(),
            self@.floating.tiling.layout_fits(),
        ensures
            layout.focused_window == self@.focused(),
            layout.windows@ == self@.floating.layout_windows(),
            layout.shows_each_once(),
            layout.shows_focus(),
            forall|w: Window| #[trigger]
                layout.shows(w) <==> self@.is_managed(w) && !self@.is_minimised(w),
    {
        proof {
            self@.floating.lemma_layout_each_once();
            assert forall|w: Window| #[trigger]
                lists(self@.floating.layout_windows(), w) <==> self@.is_managed(w)
                && !self@.is_minimised(w) by {
                self@.lemma_layout_lists(w);
            }
            match self@.focused() {
                Some(f) => {
                    self@.lemma_layout_lists(f);
                },
                None => {},
            }
        }
        self.floating_wm.get_window_layout()
    }

    /// Focus the given window, or take the focus away when given `None`. A
    /// minimised window comes back to be focused. A window that is not
    /// managed is refused.
    pub fn focus_window(&mut self, window: Option<Window>) -> (res: Result<(), WMError>)
        requires
            old(self)@.wf(),
        ensures
            final(self)@.wf(),
            match window {
                None => res.is_ok() && final(self)@ == old(self)@.unfocus(),
                Some(w) => match res {
                    Ok(_) => {
                        &&& old(self)@.is_managed(w)
                        &&& final(self)@ == old(self)@.focus(w)
                    },
                    Err(e) => {
                        &&& !old(self)@.is_managed(w)
                        &&& e == WMError::UnknownWindow(w)
                        &&& final(self)@ == old(self)@
                    },
                },
            },
            res.is_ok() ==> final(self)@.focused() == window,
    {
        match window {
            None => {
                proof {
                    self@.lemma_unfocus();
                }
                self.floating_wm.focus_window(None)
            },
            Some(w) => {
                if !self.floating_wm.is_managed(w) {
                    return Err(WMError::UnknownWindow(w));
                }
                proof {
                    self@.lemma_focus(w);
                }
                self.bring_up(w);
                self.floating_wm.focus_window(window)
            },
        }
    }

    /// Focus the previous or the next window of the focus order, seen as a
    /// circle. A minimised window comes back to be focused. Without
    /// windows nothing happens.
    pub fn cycle_focus(&mut self, dir: PrevOrNext)
        requires
            old(self)@.wf(),
        ensures
            final(self)@.wf(),
            final(self)@ == old(self)@.cycle_focus(dir),
    {
        proof {
            self@.lemma_cycle_focus(dir);
        }
        if self.floating_wm.tiling_wm.windows.len() == 0 {
            return ;
        }
        proof {
            self@.floating.lemma_focus_ops(0, dir);
            self@.floating.tiling.lemma_cycle_focus(dir);
            lemma_rotated(self@.windows(), dir);
        }
        self.floating_wm.cycle_focus(dir);
        match self.floating_wm.get_focused_window() {
            None => {},
            Some(focused) => {
                assert(self@.consistent());
                assert(self@.windows().contains(focused)) by {
                    assert(self@.windows()[self@.windows().len() - 1] == focused);
                }
                self.bring_up_consistent(focused);
            },
        }
    }

    /// Bring back the window that just got the focus, if it is minimised.
    fn bring_up_consistent(&mut self, window: Window)
        requires
            old(self)@.consistent(),
            old(self)@.is_managed(window),
        ensures
            final(self)@ == old(self)@.bring_up(window),
    {
        if holds(&self.minimised, window) {
            let info = self.recorded(window);
            match info.float_or_tile {
                FloatOrTile::Float => {
                    self.floating_wm.floats.insert(window, info.geometry);
                },
                FloatOrTile::Tile => {
                    self.floating_wm.tiling_wm.tiles.push(window);
                },
            }
            take_out(&mut self.minimised, window);
        }
    }

    /// Return what is recorded about a window: the geometry it was given,
    /// whether it floats or tiles, and whether it asked to be fullscreen. A
    /// window that is not managed is refused.
    pub fn get_window_info(&self, window: Window) -> (res: Result<WindowWithInfo, WMError>)
        requires
            self@.wf(),
        ensures
            match res {
                Ok(info) => self@.is_managed(window) && info == self@.info()[window],
                Err(e) => !self@.is_managed(window) && e == WMError::UnknownWindow(window),
            },
    {
        self.floating_wm.get_window_info(window)
    }

    /// Return the screen.
    pub fn get_screen(&self) -> (screen: Screen)
        ensures
            screen == self@.floating.tiling.screen,
    {
        self.floating_wm.get_screen()
    }

    /// Take note of a new screen.
    pub fn resize_screen(&mut self, screen: Screen)
        ensures
            final(self)@ == old(self)@.resize_screen(screen),
            old(self)@.wf() ==> final(self)@.wf(),
    {
        self.floating_wm.resize_screen(screen);
        assert(self@.windows() == old(self)@.windows());
        assert(self@.tiles() == old(self)@.tiles());
        assert(self@.floats() == old(self)@.floats());
        assert(self@.minimised == old(self)@.minimised);
        assert(self@.focused() == old(self)@.focused());
    }

    /// Return the window in the master tile, if there is a tile.
    pub fn get_master_window(&self) -> (master: Option<Window>)
        ensures
            master == self@.floating.tiling.master(),
    {
        self.floating_wm.get_master_window()
    }

    /// Exchange the given window with the master window and focus it. A
    /// window that is recorded as floating stays where it is; a minimised
    /// tile comes back first. A window that is not managed is refused.
    pub fn swap_with_master(&mut self, window: Window) -> (res: Result<(), WMError>)
        requires
            old(self)@.wf(),
        ensures
            final(self)@.wf(),
            match res {
                Ok(_) => {
                    &&& old(self)@.is_managed(window)
                    &&& final(self)@ == old(self)@.swap_with_master(window)
                    &&& old(self)@.info()[window].float_or_tile == FloatOrTile::Tile ==> {
                        &&& final(self)@.floating.tiling.master() == Some(window)
                        &&& final(self)@.focused() == Some(window)
                    }
                },
                Err(e) => {
                    &&& !old(self)@.is_managed(window)
                    &&& e == WMError::UnknownWindow(window)
                    &&& final(self)@ == old(self)@
                },
            },
    {
        if !self.floating_wm.is_managed(window) {
            return Err(WMError::UnknownWindow(window));
        }
        proof {
            self@.lemma_swap_with_master(window);
        }
        let info = self.recorded(window);
        if info.float_or_tile == FloatOrTile::Float {
            return Ok(());
        }
        self.bring_up(window);
        self.floating_wm.swap_with_master(window)
    }

    /// Exchange the tile of the focused window with the previous or the
    /// next tile. Nothing happens while a floating window has the focus.
    pub fn swap_windows(&mut self, dir: PrevOrNext)
        requires
            old(self)@.wf(),
        ensures
            final(self)@.wf(),
            final(self)@ == old(self)@.swap_windows(dir),
            final(self)@.focused() == old(self)@.focused(),
    {
        proof {
            self@.lemma_swap_windows(dir);
        }
        self.floating_wm.swap_windows(dir);
    }

    /// Return the windows that float on the screen, in focus order.
    pub fn get_floating_windows(&self) -> (floating: Vec<Window>)
        ensures
            floating@ == self@.floating.floating_windows(),
    {
        self.floating_wm.get_floating_windows()
    }

    /// Tell whether `window` floats on the screen: whether
    /// `get_floating_windows` lists it.
    pub fn is_floating(&self, window: Window) -> (floating: bool)
        requires
            self@.wf(),
        ensures
            floating == self@.is_floating(window),
            floating == self@.floating.floating_windows().contains(window),
            floating ==> self@.is_managed(window),
    {
        self.floating_wm.is_floating(window)
    }

    /// Let a floating window sink into the last tile, or set a tiled window
    /// afloat with the geometry that is recorded for it. A minimised window
    /// comes back and is focused first. A window that is not managed is
    /// refused.
    pub fn toggle_floating(&mut self, window: Window) -> (res: Result<(), WMError>)
        requires
            old(self)@.wf(),
        ensures
            final(self)@.wf(),
            match res {
                Ok(_) => {
                    &&& old(self)@.is_managed(window)
                    &&& final(self)@ == old(self)@.toggle_floating(window)
                },
                Err(e) => {
                    &&& !old(self)@.is_managed(window)
                    &&& e == WMError::UnknownWindow(window)
                    &&& final(self)@ == old(self)@
                },
            },
    {
        if !self.floating_wm.is_managed(window) {
            return Err(WMError::UnknownWindow(window));
        }
        proof {
            self@.lemma_toggle_floating(window);
        }
        self.restore(window);
        self.floating_wm.toggle_floating(window)
    }

    /// Move or resize a floating window. A minimised window that is
    /// recorded as floating comes back and is focused first. A tile keeps
    /// its place, and that is no error. A window that is not managed is
    /// refused.
    pub fn set_window_geometry(&mut self, window: Window, new_geometry: Geometry) -> (res: Result<
        (),
        WMError,
    >)
        requires
            old(self)@.wf(),
        ensures
            final(self)@.wf(),
            match res {
                Ok(_) => {
                    &&& old(self)@.is_managed(window)
                    &&& final(self)@ == old(self)@.set_window_geometry(window, new_geometry)
                },
                Err(e) => {
                    &&& !old(self)@.is_managed(window)
                    &&& e == WMError::UnknownWindow(window)
                    &&& final(self)@ == old(self)@
                },
            },
    {
        if !self.floating_wm.is_managed(window) {
            return Err(WMError::UnknownWindow(window));
        }
        proof {
            self@.lemma_set_window_geometry(window, new_geometry);
        }
        let info = self.recorded(window);
        if info.float_or_tile == FloatOrTile::Float {
            self.restore(window);
        }
        self.floating_wm.set_window_geometry(window, new_geometry)
    }

    /// Return the minimised windows, the one that was minimised first in
    /// front.
    pub fn get_minimised_windows(&self) -> (minimised: Vec<Window>)
        ensures
            minimised@ == self@.minimised,
    {
        self.minimised.clone()
    }

    /// Tell whether `window` is minimised: whether `get_minimised_windows`
    /// lists it.
    pub fn is_minimised(&self, window: Window) -> (minimised: bool)
        ensures
            minimised == self@.is_minimised(window),
            minimised == self@.minimised.contains(window),
            self@.wf() && minimised ==> self@.is_managed(window),
    {
        holds(&self.minimised, window)
    }

    /// Minimise a window, or bring it back if it is minimised.
    ///
    /// A window that comes back floats or tiles as is recorded for it: it
    /// floats with its recorded geometry, or it becomes the last tile. It
    /// gets the focus. A window that is minimised leaves the screen; if it
    /// had the focus, the focus goes to the nearest window before it in
    /// focus order that is on the screen, or to no window. A window that is
    /// not managed is refused.
    pub fn toggle_minimised(&mut self, window: Window) -> (res: Result<(), WMError>)
        requires
            old(self)@.wf(),
        ensures
            final(self)@.wf(),
            match res {
                Ok(_) => {
                    &&& old(self)@.is_managed(window)
                    &&& final(self)@ == old(self)@.toggle_minimised(window)
                    &&& final(self)@.is_minimised(window) <==> !old(self)@.is_minimised(window)
                },
                Err(e) => {
                    &&& !old(self)@.is_managed(window)
                    &&& e == WMError::UnknownWindow(window)
                    &&& final(self)@ == old(self)@
                },
            },
    {
        if !self.floating_wm.is_managed(window) {
            return Err(WMError::UnknownWindow(window));
        }
        proof {
            self@.lemma_toggle_minimised(window);
        }
        if holds(&self.minimised, window) {
            self.restore(window);
        } else {
            proof {
                self@.lemma_put_away(window);
            }
            take_out(&mut self.floating_wm.tiling_wm.tiles, window);
            self.floating_wm.floats.remove(&window);
            self.minimised.push(window);
            self.refocus();
        }
        Ok(())
    }
}

impl WindowManager for MinimiseWM {
    type Error = WMError;

    open spec fn wf(&self) -> bool {
        self@.wf()
    }

    open spec fn managed(&self) -> Seq<Window> {
        self@.windows()
    }

    open spec fn focus(&self) -> Option<Window> {
        self@.focused()
    }

    open spec fn screen(&self) -> Screen {
        self@.floating.tiling.screen
    }

    open spec fn lays_out(&self) -> bool {
        self@.floating.tiling.layout_fits()
    }

    open spec fn reach(&self) -> Seq<Window> {
        self@.windows()
    }

    open spec fn tells(&self, window: Window) -> bool {
        true
    }

    proof fn lemma_managed(&self) {
        if self@.focused().is_some() {
            assert(self@.windows()[self@.windows().len() - 1] == self@.windows().last());
        }
    }

    proof fn lemma_tells(&self, window: Window) {
    }

    fn new(screen: Screen) -> (wm: Self)
        ensures
            wm@ == MinimiseState::start(screen),
            wm@.wf(),
    {
        MinimiseWM::new(screen)
    }

    fn is_valid(&self) -> (valid: bool)
        ensures
            valid == self@.wf(),
    {
        MinimiseWM::is_valid(self)
    }

    fn can_lay_out(&self) -> (fits: bool)
        ensures
            fits == self@.floating.tiling.layout_fits(),
    {
        MinimiseWM::can_lay_out(self)
    }

    fn get_window_layout(&self) -> (layout: WindowLayout)
        ensures
            layout.focused_window == self@.focused(),
            layout.windows@ == self@.floating.layout_windows(),
            layout.shows_each_once(),
            layout.shows_focus(),
            forall|w: Window| #[trigger]
                layout.shows(w) <==> self@.is_managed(w) && !self@.is_minimised(w),
    {
        MinimiseWM::get_window_layout(self)
    }

    fn is_managed(&self, window: Window) -> (managed: bool)
        ensures
            managed == self@.is_managed(window),
            managed == self@.windows().contains(window),
    {
        MinimiseWM::is_managed(self, window)
    }

    fn get_windows(&self) -> (windows: Vec<Window>)
        ensures
            windows@ == self@.windows(),
    {
        MinimiseWM::get_windows(self)
    }

    fn get_focused_window(&self) -> (focused: Option<Window>)
        ensures
            focused == self@.focused(),
    {
        MinimiseWM::get_focused_window(self)
    }

    fn add_window(&mut self, window_with_info: WindowWithInfo) -> (res: Result<(), WMError>)
        ensures
            final(self)@.wf(),
            match res {
                Ok(_) => {
                    &&& !old(self)@.is_managed(window_with_info.window)
                    &&& final(self)@ == old(self)@.add_window(window_with_info)
                    &&& final(self)@.is_managed(window_with_info.window)
                    &&& final(self)@.focused() == Some(window_with_info.window)
                },
                Err(e) => {
                    &&& old(self)@.is_managed(window_with_info.window)
                    &&& e == WMError::AlreadyManagedWindow(window_with_info.window)
                    &&& final(self)@ == old(self)@
                },
            },
    {
        proof {
            if !self@.is_managed(window_with_info.window) {
                self@.lemma_add_window(window_with_info);
            }
        }
        MinimiseWM::add_window(self, window_with_info)
    }

    fn remove_window(&mut self, window: Window) -> (res: Result<(), WMError>)
        ensures
            final(self)@.wf(),
            match res {
                Ok(_) => {
                    &&& old(self)@.is_managed(window)
                    &&& final(self)@ == old(self)@.remove_window(window)
                    &&& !final(self)@.is_managed(window)
                },
                Err(e) => {
                    &&& !old(self)@.is_managed(window)
                    &&& e == WMError::UnknownWindow(window)
                    &&& final(self)@ == old(self)@
                },
            },
    {
        proof {
            if self@.is_managed(window) {
                self@.lemma_remove_window(window);
            }
        }
        MinimiseWM::remove_window(self, window)
    }

    fn focus_window(&mut self, window: Option<Window>) -> (res: Result<(), WMError>)
        ensures
            final(self)@.wf(),
            match window {
                None => res.is_ok() && final(self)@ == old(self)@.unfocus(),
                Some(w) => match res {
                    Ok(_) => {
                        &&& old(self)@.is_managed(w)
                        &&& final(self)@ == old(self)@.focus(w)
                    },
                    Err(e) => {
                        &&& !old(self)@.is_managed(w)
                        &&& e == WMError::UnknownWindow(w)
                        &&& final(self)@ == old(self)@
                    },
                },
            },
            res.is_ok() ==> final(self)@.focused() == window,
    {
        proof {
            match window {
                Some(w) => {
                    if self@.is_managed(w) {
                        self@.lemma_focus(w);
                    }
                },
                None => {},
            }
        }
        MinimiseWM::focus_window(self, window)
    }

    fn cycle_focus(&mut self, dir: PrevOrNext)
        ensures
            final(self)@.wf(),
            final(self)@ == old(self)@.cycle_focus(dir),
    {
        proof {
            self@.lemma_cycle_focus(dir);
        }
        MinimiseWM::cycle_focus(self, dir)
    }

    fn get_window_info(&self, window: Window) -> (res: Result<WindowWithInfo, WMError>)
        ensures
            match res {
                Ok(info) => self@.is_managed(window) && info == self@.info()[window],
                Err(e) => !self@.is_managed(window) && e == WMError::UnknownWindow(window),
            },
    {
        proof {
            if self@.is_managed(window) {
                assert(self@.info().contains_key(window));
            }
        }
        MinimiseWM::get_window_info(self, window)
    }

    fn get_screen(&self) -> (screen: Screen)
        ensures
            screen == self@.floating.tiling.screen,
    {
        MinimiseWM::get_screen(self)
    }

    fn resize_screen(&mut self, screen: Screen)
        ensures
            final(self)@ == old(self)@.resize_screen(screen),
            old(self)@.wf() ==> final(self)@.wf(),
    {
        MinimiseWM::resize_screen(self, screen)
    }
}

impl TilingSupport for MinimiseWM {
    open spec fn master(&self) -> Option<Window> {
        self@.floating.tiling.master()
    }

    fn get_master_window(&self) -> (master: Option<Window>)
        ensures
            master == self@.floating.tiling.master(),
    {
        proof {
            if self@.tiles().len() > 0 {
                assert(self@.tiles().contains(self@.tiles()[0]));
            }
        }
        MinimiseWM::get_master_window(self)
    }

    fn swap_with_master(&mut self, window: Window) -> (res: Result<(), WMError>)
        ensures
            final(self)@.wf(),
            match res {
                Ok(_) => {
                    &&& old(self)@.is_managed(window)
                    &&& final(self)@ == old(self)@.swap_with_master(window)
                    &&& old(self)@.info()[window].float_or_tile == FloatOrTile::Tile ==> {
                        &&& final(self)@.floating.tiling.master() == Some(window)
                        &&& final(self)@.focused() == Some(window)
                    }
                },
                Err(e) => {
                    &&& !old(self)@.is_managed(window)
                    &&& e == WMError::UnknownWindow(window)
                    &&& final(self)@ == old(self)@
                },
            },
    {
        proof {
            if self@.is_managed(window) {
                self@.lemma_swap_with_master(window);
            }
        }
        MinimiseWM::swap_with_master(self, window)
    }

    fn swap_windows(&mut self, dir: PrevOrNext)
        ensures
            final(self)@.wf(),
            final(self)@ == old(self)@.swap_windows(dir),
            final(self)@.focused() == old(self)@.focused(),
    {
        proof {
            self@.lemma_swap_windows(dir);
        }
        MinimiseWM::swap_windows(self, dir)
    }
}

impl FloatSupport for MinimiseWM {
    open spec fn floating(&self) -> Seq<Window> {
        self@.floating.floating_windows()
    }

    proof fn lemma_floating(&self) {
        self@.floating.lemma_floating_windows();
    }

    fn get_floating_windows(&self) -> (floating: Vec<Window>)
        ensures
            floating@ == self@.floating.floating_windows(),
    {
        MinimiseWM::get_floating_windows(self)
    }

    fn is_floating(&self, window: Window) -> (floating: bool)
        ensures
            floating == self@.is_floating(window),
            floating == self@.floating.floating_windows().contains(window),
            floating ==> self@.is_managed(window),
    {
        MinimiseWM::is_floating(self, window)
    }

    fn toggle_floating(&mut self, window: Window) -> (res: Result<(), WMError>)
        ensures
            final(self)@.wf(),
            match res {
                Ok(_) => {
                    &&& old(self)@.is_managed(window)
                    &&& final(self)@ == old(self)@.toggle_floating(window)
                },
                Err(e) => {
                    &&& !old(self)@.is_managed(window)
                    &&& e == WMError::UnknownWindow(window)
                    &&& final(self)@ == old(self)@
                },
            },
    {
        proof {
            if self@.is_managed(window) {
                self@.lemma_toggle_floating(window);
            }
            if self@.floating.floating_windows().contains(window) {
                self@.lemma_toggle_floating_sinks(window);
            }
        }
        MinimiseWM::toggle_floating(self, window)
    }

    fn set_window_geometry(&mut self, window: Window, new_geometry: Geometry) -> (res: Result<
        (),
        WMError,
    >)
        ensures
            final(self)@.wf(),
            match res {
                Ok(_) => {
                    &&& old(self)@.is_managed(window)
                    &&& final(self)@ == old(self)@.set_window_geometry(window, new_geometry)
                },
                Err(e) => {
                    &&& !old(self)@.is_managed(window)
                    &&& e == WMError::UnknownWindow(window)
                    &&& final(self)@ == old(self)@
                },
            },
    {
        proof {
            if self@.is_managed(window) {
                self@.lemma_set_window_geometry(window, new_geometry);
            }
        }
        MinimiseWM::set_window_geometry(self, window, new_geometry)
    }
}

impl MinimiseSupport for MinimiseWM {
    open spec fn minimised(&self) -> Seq<Window> {
        self@.minimised
    }

    proof fn lemma_minimised(&self) {
    }

    fn get_minimised_windows(&self) -> (minimised: Vec<Window>)
        ensures
            minimised@ == self@.minimised,
    {
        MinimiseWM::get_minimised_windows(self)
    }

    fn is_minimised(&self, window: Window) -> (minimised: bool)
        ensures
            minimised == self@.is_minimised(window),
            minimised == self@.minimised.contains(window),
            self@.wf() && minimised ==> self@.is_managed(window),
    {
        MinimiseWM::is_minimised(self, window)
    }

    fn toggle_minimised(&mut self, window: Window) -> (res: Result<(), WMError>)
        ensures
            final(self)@.wf(),
            match res {
                Ok(_) => {
                    &&& old(self)@.is_managed(window)
                    &&& final(self)@ == old(self)@.toggle_minimised(window)
                    &&& final(self)@.is_minimised(window) <==> !old(self)@.is_minimised(window)
                },
                Err(e) => {
                    &&& !old(self)@.is_managed(window)
                    &&& e == WMError::UnknownWindow(window)
                    &&& final(self)@ == old(self)@
                },
            },
    {
        proof {
            if self@.is_managed(window) {
                self@.lemma_toggle_minimised(window);
            }
        }
        MinimiseWM::toggle_minimised(self, window)
    }
}

} // verus!
