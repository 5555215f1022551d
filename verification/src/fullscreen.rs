//! Fullscreen windows on top of the minimising window manager.
//!
//! At most one window is fullscreen. While there is one, it has the focus
//! and the layout shows it alone, as large as the screen.

use vstd::prelude::*;
use crate::minimise::{MinimiseState, MinimiseWM};
use crate::types::{
    each_once, FloatOrTile, Geometry, lists, PrevOrNext, Screen, Window, WindowLayout, WindowWithInfo,
};
use crate::wm::{FloatSupport, FullscreenSupport, MinimiseSupport, TilingSupport, WindowManager};
use crate::wm_error::WMError;

verus! {

broadcast use vstd::std_specs::hash::group_hash_axioms;

/// The state of a window manager with tiles, floating windows, minimised
/// windows and a fullscreen window.
pub struct FullState {
    /// The state of the minimising window manager underneath.
    pub minimise: MinimiseState,
    /// The fullscreen window, if there is one.
    pub fullscreen: Option<Window>,
}

impl FullState {
    /// The state of a window manager without windows.
    pub open spec fn start(screen: Screen) -> FullState {
        FullState { minimise: MinimiseState::start(screen), fullscreen: None }
    }

    /// The state is well-formed: the state underneath is, and the fullscreen
    /// window is managed and has the focus. It is then on the screen.
    pub open spec fn wf(self) -> bool {
        &&& self.minimise.wf()
        &&& match self.fullscreen {
            Some(f) => self.minimise.is_managed(f) && self.minimise.focused() == Some(f),
            None => true,
        }
    }

    /// Whether `w` is managed.
    pub open spec fn is_managed(self, w: Window) -> bool {
        self.minimise.is_managed(w)
    }

    /// The focused window.
    pub open spec fn focused(self) -> Option<Window> {
        self.minimise.focused()
    }

    /// The screen.
    #[verifier::inline]
    pub open spec fn screen(self) -> Screen {
        self.minimise.floating.tiling.screen
    }

    /// Whether `w` is recorded as floating.
    pub open spec fn floats(self, w: Window) -> bool {
        self.minimise.info()[w].float_or_tile == FloatOrTile::Float
    }

    /// The visible windows with their geometry: the fullscreen window alone
    /// and as large as the screen, or else the tiles and above them the
    /// floating windows.
    pub open spec fn layout_windows(self) -> Seq<(Window, Geometry)> {
        match self.fullscreen {
            Some(f) => seq![(f, self.screen().spec_to_geometry())],
            None => self.minimise.floating.layout_windows(),
        }
    }

    /// The floating windows that the layout shows: the fullscreen window if
    /// it is recorded as floating, and without a fullscreen window all the
    /// windows that float on the screen.
    pub open spec fn floating_windows(self) -> Seq<Window> {
        match self.fullscreen {
            Some(f) => if self.floats(f) {
                seq![f]
            } else {
                Seq::empty()
            },
            None => self.minimise.floating.floating_windows(),
        }
    }

    /// Whether the layout shows `w` floating.
    pub open spec fn is_floating(self, w: Window) -> bool {
        self.floating_windows().contains(w)
    }

    /// The state with another state of the minimising window manager, and
    /// no fullscreen window.
    pub open spec fn windowed(self, minimise: MinimiseState) -> FullState {
        FullState { minimise, fullscreen: None }
    }

    /// The state with another state of the minimising window manager, and
    /// the fullscreen window that there was.
    pub open spec fn with_minimise(self, minimise: MinimiseState) -> FullState {
        FullState { minimise, ..self }
    }

    /// The state after the managed window `w` has changed between
    /// fullscreen and not. A window that becomes fullscreen takes the place
    /// of the one that was, comes back if it was minimised, and gets the
    /// focus. A window that stops being fullscreen leaves all else as it
    /// is.
    pub open spec fn toggle_fullscreen(self, w: Window) -> FullState {
        if self.fullscreen == Some(w) {
            FullState { fullscreen: None, ..self }
        } else {
            FullState { minimise: self.minimise.focus(w), fullscreen: Some(w) }
        }
    }

    /// The state after the unmanaged window of `info` has been added. No
    /// other window stays fullscreen; the new window is fullscreen if it
    /// asks for it.
    pub open spec fn add_window(self, info: WindowWithInfo) -> FullState {
        FullState {
            minimise: self.minimise.add_window(info),
            fullscreen: if info.fullscreen {
                Some(info.window)
            } else {
                None
            },
        }
    }

    /// The state after the managed window `w` has been removed. Another
    /// window that was fullscreen stays so.
    pub open spec fn remove_window(self, w: Window) -> FullState {
        FullState {
            minimise: self.minimise.remove_window(w),
            fullscreen: if self.fullscreen == Some(w) {
                None
            } else {
                self.fullscreen
            },
        }
    }

    /// The state after the focus has gone to the managed window `w`. No
    /// other window stays fullscreen.
    pub open spec fn focus(self, w: Window) -> FullState {
        FullState {
            minimise: self.minimise.focus(w),
            fullscreen: if self.fullscreen == Some(w) {
                Some(w)
            } else {
                None
            },
        }
    }

    /// The state after the focus has been taken away. No window stays
    /// fullscreen.
    pub open spec fn unfocus(self) -> FullState {
        self.windowed(self.minimise.unfocus())
    }

    /// The state after the focus has moved to the previous or next window.
    /// No window stays fullscreen, unless the fullscreen window is the only
    /// window: then nothing happens.
    pub open spec fn cycle_focus(self, dir: PrevOrNext) -> FullState {
        if self.fullscreen.is_some() && self.minimise.windows().len() <= 1 {
            self
        } else {
            self.windowed(self.minimise.cycle_focus(dir))
        }
    }

    /// Whether the fullscreen window stays fullscreen when the managed
    /// window `w` is exchanged with the master window. It does where
    /// nothing moves: when it is `w` itself and is the master window or
    /// recorded as floating, and when `w` is another window that is
    /// recorded as floating, unless the fullscreen window is the master
    /// window.
    pub open spec fn swap_keeps_fullscreen(self, w: Window) -> bool {
        match self.fullscreen {
            None => true,
            Some(f) => if f == w {
                self.minimise.floating.tiling.master() == Some(w) || self.floats(w)
            } else {
                self.floats(w) && self.minimise.floating.tiling.master() != Some(f)
            },
        }
    }

    /// The state after the managed window `w` has been exchanged with the
    /// master window.
    pub open spec fn swap_with_master(self, w: Window) -> FullState {
        FullState {
            minimise: self.minimise.swap_with_master(w),
            fullscreen: if self.swap_keeps_fullscreen(w) {
                self.fullscreen
            } else {
                None
            },
        }
    }

    /// The state after the focused tile has been exchanged with its
    /// neighbour. A fullscreen window that is recorded as tiled does not
    /// stay fullscreen.
    pub open spec fn swap_windows(self, dir: PrevOrNext) -> FullState {
        FullState {
            minimise: self.minimise.swap_windows(dir),
            fullscreen: match self.fullscreen {
                Some(f) if !self.floats(f) => None,
                _ => self.fullscreen,
            },
        }
    }

    /// The state after the managed window `w` has changed between floating
    /// and tiling. No window stays fullscreen.
    pub open spec fn toggle_floating(self, w: Window) -> FullState {
        self.windowed(self.minimise.toggle_floating(w))
    }

    /// Whether the fullscreen window stays fullscreen when the managed
    /// window `w` is given a geometry. It does not when it is `w` itself
    /// and recorded as floating, nor when `w` comes back from the minimised
    /// windows to take the geometry.
    pub open spec fn geometry_keeps_fullscreen(self, w: Window) -> bool {
        match self.fullscreen {
            None => true,
            Some(f) => !self.floats(w) || (f != w && !self.minimise.is_minimised(w)),
        }
    }

    /// The state after the managed window `w` has been given the geometry
    /// `g`.
    pub open spec fn set_window_geometry(self, w: Window, g: Geometry) -> FullState {
        FullState {
            minimise: self.minimise.set_window_geometry(w, g),
            fullscreen: if self.geometry_keeps_fullscreen(w) {
                self.fullscreen
            } else {
                None
            },
        }
    }

    /// The state after the managed window `w` has been minimised, or has
    /// come back if it was minimised. A window that is minimised is not
    /// fullscreen. A window that comes back is fullscreen if it asked for
    /// that when it was added, and no other window stays fullscreen.
    pub open spec fn toggle_minimised(self, w: Window) -> FullState {
        FullState {
            minimise: self.minimise.toggle_minimised(w),
            fullscreen: if self.minimise.is_minimised(w) {
                if self.minimise.info()[w].fullscreen {
                    Some(w)
                } else {
                    None
                }
            } else if self.fullscreen == Some(w) {
                None
            } else {
                self.fullscreen
            },
        }
    }

    /// The state after the screen has changed.
    pub open spec fn resize_screen(self, screen: Screen) -> FullState {
        self.with_minimise(self.minimise.resize_screen(screen))
    }

    /// While a window is fullscreen the layout shows it alone, as large as
    /// the screen, and it has the focus.
    pub proof fn lemma_fullscreen_alone(self, f: Window)
        requires
            self.wf(),
            self.fullscreen == Some(f),
        ensures
            self.layout_windows() == seq![(f, self.screen().spec_to_geometry())],
            self.focused() == Some(f),
            self.is_managed(f),
            !self.minimise.is_minimised(f),
    {
    }

    /// Toggling fullscreen keeps the state well-formed. A window that was
    /// not fullscreen is fullscreen and focused afterwards, and one that
    /// was is not.
    pub proof fn lemma_toggle_fullscreen(self, w: Window)
        requires
            self.wf(),
            self.is_managed(w),
        ensures
            self.toggle_fullscreen(w).wf(),
            self.fullscreen != Some(w) ==> self.toggle_fullscreen(w).fullscreen == Some(w)
                && self.toggle_fullscreen(w).focused() == Some(w),
            self.fullscreen == Some(w) ==> self.toggle_fullscreen(w).fullscreen.is_none(),
            forall|x: Window| #[trigger]
                self.toggle_fullscreen(w).minimise.windows().contains(x)
                    <==> self.minimise.windows().contains(x),
    {
        self.minimise.lemma_focus(w);
    }

    /// Adding an unmanaged window keeps the state well-formed; the window
    /// is managed and focused.
    pub proof fn lemma_add_window(self, info: WindowWithInfo)
        requires
            self.wf(),
            !self.is_managed(info.window),
        ensures
            self.add_window(info).wf(),
            self.add_window(info).is_managed(info.window),
            self.add_window(info).focused() == Some(info.window),
            forall|x: Window| #[trigger]
                self.add_window(info).minimise.windows().contains(x)
                    <==> self.minimise.windows().contains(x) || x == info.window,
    {
        self.minimise.lemma_add_window(info);
    }

    /// Removing a managed window keeps the state well-formed, and exactly
    /// that window is no longer managed.
    pub proof fn lemma_remove_window(self, w: Window)
        requires
            self.wf(),
            self.is_managed(w),
        ensures
            self.remove_window(w).wf(),
            !self.remove_window(w).is_managed(w),
            forall|x: Window| #[trigger]
                self.remove_window(w).minimise.windows().contains(x)
                    <==> self.minimise.windows().contains(x) && x != w,
    {
        self.minimise.lemma_remove_window(w);
    }

    /// The focus operations keep the state well-formed.
    pub proof fn lemma_focus_ops(self, w: Window, dir: PrevOrNext)
        requires
            self.wf(),
        ensures
            self.unfocus().wf(),
            self.cycle_focus(dir).wf(),
            self.swap_windows(dir).wf(),
            self.is_managed(w) ==> self.focus(w).wf() && self.focus(w).focused() == Some(w),
            self.is_managed(w) ==> self.swap_with_master(w).wf(),
            self.unfocus().minimise.windows() == self.minimise.windows(),
            self.swap_windows(dir).minimise.windows() == self.minimise.windows(),
            forall|x: Window| #[trigger]
                self.cycle_focus(dir).minimise.windows().contains(x)
                    <==> self.minimise.windows().contains(x),
            forall|x: Window|
                self.is_managed(w) ==> (#[trigger] self.focus(w).minimise.windows().contains(x)
                    <==> self.minimise.windows().contains(x)),
            forall|x: Window|
                self.is_managed(w) ==> (
                #[trigger] self.swap_with_master(w).minimise.windows().contains(x)
                    <==> self.minimise.windows().contains(x)),
    {
        self.minimise.lemma_unfocus();
        self.minimise.lemma_cycle_focus(dir);
        self.minimise.lemma_swap_windows(dir);
        if self.is_managed(w) {
            self.minimise.lemma_focus(w);
            self.minimise.lemma_swap_with_master(w);
            assert(self.minimise.info().contains_key(w));
        }
    }

    /// Toggling between floating and tiling keeps the state well-formed.
    pub proof fn lemma_toggle_floating(self, w: Window)
        requires
            self.wf(),
            self.is_managed(w),
        ensures
            self.toggle_floating(w).wf(),
            forall|x: Window| #[trigger]
                self.toggle_floating(w).minimise.windows().contains(x)
                    <==> self.minimise.windows().contains(x),
    {
        self.minimise.lemma_toggle_floating(w);
    }

    /// Setting a geometry keeps the state well-formed.
    pub proof fn lemma_set_window_geometry(self, w: Window, g: Geometry)
        requires
            self.wf(),
            self.is_managed(w),
        ensures
            self.set_window_geometry(w, g).wf(),
            forall|x: Window| #[trigger]
                self.set_window_geometry(w, g).minimise.windows().contains(x)
                    <==> self.minimise.windows().contains(x),
    {
        self.minimise.lemma_set_window_geometry(w, g);
    }

    /// Toggling minimised keeps the state well-formed.
    pub proof fn lemma_toggle_minimised(self, w: Window)
        requires
            self.wf(),
            self.is_managed(w),
        ensures
            self.toggle_minimised(w).wf(),
            forall|x: Window| #[trigger]
                self.toggle_minimised(w).minimise.windows().contains(x)
                    <==> self.minimise.windows().contains(x),
    {
        self.minimise.lemma_toggle_minimised(w);
        if self.minimise.is_minimised(w) {
            self.minimise.lemma_unminimise(w);
        } else {
            self.minimise.lemma_minimise(w);
        }
    }
}

impl FullState {
    /// The layout places no window twice, and only managed windows that
    /// are not minimised: all of them, or the fullscreen window alone.
    pub proof fn lemma_layout_lists(self, w: Window)
        requires
            self.wf(),
        ensures
            each_once(self.layout_windows()),
            lists(self.layout_windows(), w) ==> self.is_managed(w) && !self.minimise.is_minimised(
                w,
            ),
            self.fullscreen.is_none() ==> (lists(self.layout_windows(), w) <==> self.is_managed(w)
                && !self.minimise.is_minimised(w)),
            match self.fullscreen {
                Some(f) => lists(self.layout_windows(), w) <==> w == f,
                None => true,
            },
    {
        match self.fullscreen {
            Some(f) => {
                let layout = self.layout_windows();
                assert(layout[0].0 == f);
                if lists(layout, w) {
                    let i = choose|i: int| 0 <= i < layout.len() && (#[trigger] layout[i]).0 == w;
                    assert(i == 0);
                }
            },
            None => {
                self.minimise.floating.lemma_layout_each_once();
                self.minimise.lemma_layout_lists(w);
            },
        }
    }

    /// The layout places the focused window.
    pub proof fn lemma_focused_is_shown(self, w: Window)
        requires
            self.wf(),
            self.focused() == Some(w),
        ensures
            lists(self.layout_windows(), w),
    {
        match self.fullscreen {
            Some(f) => {
                assert(self.layout_windows()[0].0 == w);
            },
            None => {
                self.minimise.lemma_layout_lists(w);
            },
        }
    }

    /// A window that the layout shows floating does not float after it has
    /// been toggled.
    pub proof fn lemma_toggle_floating_sinks(self, w: Window)
        requires
            self.wf(),
            self.floating_windows().contains(w),
        ensures
            self.is_managed(w),
            !self.toggle_floating(w).floating_windows().contains(w),
    {
        match self.fullscreen {
            Some(f) => {
                let k = choose|k: int|
                    0 <= k < self.floating_windows().len() && self.floating_windows()[k] == w;
                assert(k == 0);
                assert(w == f);
                assert(self.minimise.info().contains_key(f));
                assert(!self.minimise.minimised.contains(f));
                assert(self.minimise.floats().contains_key(f));
                self.minimise.floating.lemma_floating_windows();
            },
            None => {},
        }
        self.minimise.lemma_toggle_floating_sinks(w);
    }

    /// Without a fullscreen window, toggling a window that is not minimised
    /// twice leaves it floating exactly if it floated before.
    pub proof fn lemma_toggle_floating_twice(self, w: Window)
        requires
            self.wf(),
            self.is_managed(w),
            self.fullscreen.is_none(),
            !self.minimise.is_minimised(w),
        ensures
            self.toggle_floating(w).toggle_floating(w).is_floating(w) == self.is_floating(w),
    {
        self.minimise.lemma_toggle_floating(w);
        self.minimise.lemma_toggle_floating_twice(w);
        let m = self.minimise.toggle_floating(w).toggle_floating(w);
        self.minimise.toggle_floating(w).lemma_toggle_floating(w);
        m.floating.lemma_floating_windows();
        self.minimise.floating.lemma_floating_windows();
    }

    /// Toggling fullscreen twice leaves the window fullscreen exactly if it
    /// was before.
    pub proof fn lemma_toggle_fullscreen_twice(self, w: Window)
        requires
            self.wf(),
            self.is_managed(w),
        ensures
            (self.toggle_fullscreen(w).toggle_fullscreen(w).fullscreen == Some(w)) == (
            self.fullscreen == Some(w)),
    {
    }
}

/// A window manager with tiles, floating windows, minimised windows and a
/// fullscreen window.
#[derive(Clone, Debug)]
pub struct FullWM {
    /// The minimising window manager underneath.
    pub minimise_wm: MinimiseWM,
    /// The fullscreen window, if there is one.
    pub fullscreen_window: Option<Window>,
}

impl View for FullWM {
    type V = FullState;

    open spec fn view(&self) -> FullState {
        FullState { minimise: self.minimise_wm@, fullscreen: self.fullscreen_window }
    }
}

impl FullWM {
    /// A window manager without windows for the given screen.
    pub fn new(screen: Screen) -> (wm: FullWM)
        ensures
            wm@ == FullState::start(screen),
            wm@.wf(),
    {
        FullWM { minimise_wm: MinimiseWM::new(screen), fullscreen_window: None }
    }

    /// Tell whether the window manager is well-formed. A window manager
    /// that was made by `new` and changed by its operations is; one that
    /// was put together from parts has to be checked.
    pub fn is_valid(&self) -> (valid: bool)
        ensures
            valid == self@.wf(),
    {
        if !self.minimise_wm.is_valid() {
            return false;
        }
        match self.fullscreen_window {
            None => true,
            Some(fullscreen) => {
                let focused = match self.minimise_wm.get_focused_window() {
                    Some(focused) => focused == fullscreen,
                    None => false,
                };
                focused && self.minimise_wm.is_managed(fullscreen)
            },
        }
    }

    /// Tell whether the layout can be written down: a window is fullscreen,
    /// or the offsets of all tiles fit the signed coordinates of a
    /// geometry.
    pub fn can_lay_out(&self) -> (fits: bool)
        ensures
            fits == (self@.fullscreen.is_none()
                ==> self@.minimise.floating.tiling.layout_fits()),
    {
        self.fullscreen_window.is_some() || self.minimise_wm.can_lay_out()
    }

    /// Return the managed windows in focus order, the minimised ones among
    /// them.
    pub fn get_windows(&self) -> (windows: Vec<Window>)
        ensures
            windows@ == self@.minimise.windows(),
    {
        self.minimise_wm.get_windows()
    }

    /// Tell whether `window` is managed: whether `get_windows` lists it.
    pub fn is_managed(&self, window: Window) -> (managed: bool)
        ensures
            managed == self@.is_managed(window),
            managed == self@.minimise.windows().contains(window),
    {
        self.minimise_wm.is_managed(window)
    }

    /// Return the focused window, if there is one.
    pub fn get_focused_window(&self) -> (focused: Option<Window>)
        ensures
            focused == self@.focused(),
    {
        self.minimise_wm.get_focused_window()
    }

    /// Tell whether the managed window is the fullscreen window.
    fn is_fullscreen(&self, window: Window) -> (fullscreen: bool)
        ensures
            fullscreen == (self@.fullscreen == Some(window)),
    {
        match self.fullscreen_window {
            Some(f) => f == window,
            None => false,
        }
    }

    /// Tell whether the managed window is recorded as floating.
    fn recorded_floating(&self, window: Window) -> (floats: bool)
        requires
            self@.wf(),
            self@.is_managed(window),
        ensures
            floats == self@.floats(window),
    {
        match self.minimise_wm.get_window_info(window) {
            Ok(info) => info.float_or_tile == FloatOrTile::Float,
            Err(_) => false,
        }
    }

    /// Add a window and focus it. A window that was fullscreen makes room:
    /// it is no longer fullscreen. The new window is fullscreen if it asks
    /// for it. A window that is already managed is refused.
    pub fn add_window(&mut self, window_with_info: WindowWithInfo) -> (res: Result<(), WMError>)
        requires
            old(self)@.wf(),
        ensures
            final(self)@.wf(),
            match res {
                Ok(_) => {
                    &&& !old(self)@.is_managed(window_with_info.window)
                    &&& final(self)@ == old(self)@.add_window(window_with_info)
                    &&& final(self)@.is_managed(window_with_info.window)
                    &&& final(self)@.focused() == Some(window_with_info.window)
                },
                Err(e) => {
                    &&& old(self)@.is_managed(window_with_info.window)
                    &&& e == WMError::AlreadyManagedWindow(window_with_info.window)
                    &&& final(self)@ == old(self)@
                },
            },
    {
        proof {
            if !self@.is_managed(window_with_info.window) {
                self@.lemma_add_window(window_with_info);
            }
        }
        match self.minimise_wm.add_window(window_with_info) {
            Err(e) => Err(e),
            Ok(_) => {
                self.fullscreen_window = if window_with_info.fullscreen {
                    Some(window_with_info.window)
                } else {
                    None
                };
                Ok(())
            },
        }
    }

    /// Remove a window. If it is the fullscreen window, no window is
    /// fullscreen afterwards; another fullscreen window stays fullscreen
    /// and focused. A window that is not managed is refused.
    pub fn remove_window(&mut self, window: Window) -> (res: Result<(), WMError>)
        requires
            old(self)@.wf(),
        ensures
            final(self)@.wf(),
            match res {
                Ok(_) => {
                    &&& old(self)@.is_managed(window)
                    &&& final(self)@ == old(self)@.remove_window(window)
                    &&& !final(self)@.is_managed(window)
                },
                Err(e) => {
                    &&& !old(self)@.is_managed(window)
                    &&& e == WMError::UnknownWindow(window)
                    &&& final(self)@ == old(self)@
                },
            },
    {
        proof {
            if self@.is_managed(window) {
                self@.lemma_remove_window(window);
            }
        }
        match self.minimise_wm.remove_window(window) {
            Err(e) => Err(e),
            Ok(_) => {
                if self.is_fullscreen(window) {
                    self.fullscreen_window = None;
                }
                Ok(())
            },
        }
    }

    /// Return the layout. While a window is fullscreen, the layout shows it
    /// alone, as large as the screen and focused. Otherwise it shows the
    /// tiles, above them the floating windows in focus order, and the
    /// focused window.
    pub fn get_window_layout(&self) -> (layout: WindowLayout)
        requires
            self@.wf(),
            self@.fullscreen.is_none() ==> self@.minimise.floating.tiling.layout_fits(),
        ensures
            layout.focused_window == self@.focused(),
            layout.windows@ == self@.layout_windows(),
            match self@.fullscreen {
                Some(f) => layout.focused_window == Some(f) && layout.windows@ == seq![
                    (f, self@.screen().spec_to_geometry()),
                ],
                None => true,
            },
            layout.shows_each_once(),
            layout.shows_focus(),
            forall|w: Window| #[trigger]
                layout.shows(w) ==> self@.is_managed(w) && !self@.minimise.is_minimised(w),
            self@.fullscreen.is_none() ==> forall|w: Window| #[trigger]
                layout.shows(w) <==> self@.is_managed(w) && !self@.minimise.is_minimised(w),
    {
        proof {
            self@.lemma_layout_lists(0);
            assert forall|w: Window| #[trigger] lists(self@.layout_windows(), w) implies self@.is_managed(
                w,
            ) && !self@.minimise.is_minimised(w) by {
                self@.lemma_layout_lists(w);
            }
            if self@.fullscreen.is_none() {
                assert forall|w: Window| #[trigger]
                    lists(self@.layout_windows(), w) <==> self@.is_managed(w)
                    && !self@.minimise.is_minimised(w) by {
                    self@.lemma_layout_lists(w);
                }
            }
            match self@.focused() {
                Some(f) => {
                    self@.lemma_focused_is_shown(f);
                },
                None => {},
            }
        }
        match self.fullscreen_window {
            None => self.minimise_wm.get_window_layout(),
            Some(fullscreen) => {
                let mut windows: Vec<(Window, Geometry)> = Vec::new();
                windows.push((fullscreen, self.minimise_wm.get_screen().to_geometry()));
                assert(windows@ =~= self@.layout_windows());
                WindowLayout { focused_window: Some(fullscreen), windows }
            },
        }
    }

    /// Focus the given window, or take the focus away when given `None`.
    /// Either way no other window stays fullscreen. A minimised window
    /// comes back to be focused. A window that is not managed is refused.
    pub fn focus_window(&mut self, window: Option<Window>) -> (res: Result<(), WMError>)
        requires
            old(self)@.wf(),
        ensures
            final(self)@.wf(),
            match window {
                None => res.is_ok() && final(self)@ == old(self)@.unfocus(),
                Some(w) => match res {
                    Ok(_) => {
                        &&& old(self)@.is_managed(w)
                        &&& final(self)@ == old(self)@.focus(w)
                    },
                    Err(e) => {
                        &&& !old(self)@.is_managed(w)
                        &&& e == WMError::UnknownWindow(w)
                        &&& final(self)@ == old(self)@
                    },
                },
            },
            res.is_ok() ==> final(self)@.focused() == window,
    {
        proof {
            self@.lemma_focus_ops(
                match window {
                    Some(w) => w,
                    None => 0,
                },
                PrevOrNext::Next,
            );
        }
        match window {
            None => {
                self.fullscreen_window = None;
                self.minimise_wm.focus_window(None)
            },
            Some(w) => {
                match self.minimise_wm.focus_window(window) {
                    Err(e) => Err(e),
                    Ok(_) => {
                        if !self.is_fullscreen(w) {
                            self.fullscreen_window = None;
                        }
                        Ok(())
                    },
                }
            },
        }
    }

    /// Focus the previous or the next window of the focus order, seen as a
    /// circle. No window stays fullscreen, unless the fullscreen window is
    /// the only window: then nothing happens.
    pub fn cycle_focus(&mut self, dir: PrevOrNext)
        requires
            old(self)@.wf(),
        ensures
            final(self)@.wf(),
            final(self)@ == old(self)@.cycle_focus(dir),
    {
        proof {
            self@.lemma_focus_ops(0, dir);
        }
        if self.fullscreen_window.is_some() {
            if self.minimise_wm.floating_wm.tiling_wm.windows.len() <= 1 {
                return ;
            }
            self.fullscreen_window = None;
        }
        self.minimise_wm.cycle_focus(dir);
    }

    /// Return what is recorded about a window: the geometry it was given,
    /// whether it floats or tiles, and whether it asked to be fullscreen
    /// when it was added. A window that is not managed is refused.
    pub fn get_window_info(&self, window: Window) -> (res: Result<WindowWithInfo, WMError>)
        requires
            self@.wf(),
        ensures
            match res {
                Ok(info) => self@.is_managed(window) && info == self@.minimise.info()[window],
                Err(e) => !self@.is_managed(window) && e == WMError::UnknownWindow(window),
            },
    {
        self.minimise_wm.get_window_info(window)
    }

    /// Return the screen.
    pub fn get_screen(&self) -> (screen: Screen)
        ensures
            screen == self@.screen(),
    {
        self.minimise_wm.get_screen()
    }

    /// Take note of a new screen.
    pub fn resize_screen(&mut self, screen: Screen)
        ensures
            final(self)@ == old(self)@.resize_screen(screen),
            old(self)@.wf() ==> final(self)@.wf(),
    {
        self.minimise_wm.resize_screen(screen);
    }

    /// Return the window in the master tile, if there is a tile.
    pub fn get_master_window(&self) -> (master: Option<Window>)
        ensures
            master == self@.minimise.floating.tiling.master(),
    {
        self.minimise_wm.get_master_window()
    }

    /// Exchange the given window with the master window and focus it.
    ///
    /// A window recorded as floating stays where it is, and so does the
    /// master window. The fullscreen window stays fullscreen only where
    /// nothing moves, see [`FullState::swap_keeps_fullscreen`]. A window
    /// that is not managed is refused.
    pub fn swap_with_master(&mut self, window: Window) -> (res: Result<(), WMError>)
        requires
            old(self)@.wf(),
        ensures
            final(self)@.wf(),
            match res {
                Ok(_) => {
                    &&& old(self)@.is_managed(window)
                    &&& final(self)@ == old(self)@.swap_with_master(window)
                    &&& !old(self)@.floats(window) ==> {
                        &&& final(self)@.minimise.floating.tiling.master() == Some(window)
                        &&& final(self)@.focused() == Some(window)
                    }
                },
                Err(e) => {
                    &&& !old(self)@.is_managed(window)
                    &&& e == WMError::UnknownWindow(window)
                    &&& final(self)@ == old(self)@
                },
            },
    {
        if !self.minimise_wm.is_managed(window) {
            return Err(WMError::UnknownWindow(window));
        }
        proof {
            self@.lemma_focus_ops(window, PrevOrNext::Next);
            assert(self@.minimise.info().contains_key(window));
        }
        let keeps = match self.fullscreen_window {
            None => true,
            Some(f) => {
                let floats = self.recorded_floating(window);
                let fullscreen_is_master = match self.minimise_wm.get_master_window() {
                    Some(m) => m == f,
                    None => false,
                };
                if f == window {
                    fullscreen_is_master || floats
                } else {
                    floats && !fullscreen_is_master
                }
            },
        };
        if !keeps {
            self.fullscreen_window = None;
        }
        self.minimise_wm.swap_with_master(window)
    }

    /// Exchange the tile of the focused window with the previous or the
    /// next tile. A fullscreen window that is recorded as tiled does not
    /// stay fullscreen; while one that is recorded as floating is
    /// fullscreen, nothing happens.
    pub fn swap_windows(&mut self, dir: PrevOrNext)
        requires
            old(self)@.wf(),
        ensures
            final(self)@.wf(),
            final(self)@ == old(self)@.swap_windows(dir),
            final(self)@.focused() == old(self)@.focused(),
    {
        proof {
            self@.lemma_focus_ops(0, dir);
            self@.minimise.lemma_swap_windows(dir);
        }
        match self.fullscreen_window {
            None => {},
            Some(f) => {
                if !self.recorded_floating(f) {
                    self.fullscreen_window = None;
                }
            },
        }
        self.minimise_wm.swap_windows(dir);
    }

    /// Return the floating windows that the layout shows: the fullscreen
    /// window if it is recorded as floating, and without a fullscreen
    /// window all the windows that float on the screen, in focus order.
    pub fn get_floating_windows(&self) -> (floating: Vec<Window>)
        requires
            self@.wf(),
        ensures
            floating@ == self@.floating_windows(),
    {
        match self.fullscreen_window {
            None => self.minimise_wm.get_floating_windows(),
            Some(f) => {
                let mut floating: Vec<Window> = Vec::new();
                if self.recorded_floating(f) {
                    floating.push(f);
                }
                assert(floating@ =~= self@.floating_windows());
                floating
            },
        }
    }

    /// Tell whether the layout shows `window` floating: whether
    /// `get_floating_windows` lists it.
    pub fn is_floating(&self, window: Window) -> (floating: bool)
        requires
            self@.wf(),
        ensures
            floating == self@.is_floating(window),
            floating == self@.floating_windows().contains(window),
            floating ==> self@.is_managed(window),
    {
        match self.fullscreen_window {
            None => self.minimise_wm.is_floating(window),
            Some(f) => {
                let floating = f == window && self.recorded_floating(f);
                proof {
                    if self@.floats(f) {
                        assert(seq![f][0] == f);
                    }
                }
                floating
            },
        }
    }

    /// Let a floating window sink into the last tile, or set a tiled window
    /// afloat with the geometry that is recorded for it. No window stays
    /// fullscreen. A minimised window comes back and is focused first. A
    /// window that is not managed is refused.
    pub fn toggle_floating(&mut self, window: Window) -> (res: Result<(), WMError>)
        requires
            old(self)@.wf(),
        ensures
            final(self)@.wf(),
            match res {
                Ok(_) => {
                    &&& old(self)@.is_managed(window)
                    &&& final(self)@ == old(self)@.toggle_floating(window)
                },
                Err(e) => {
                    &&& !old(self)@.is_managed(window)
                    &&& e == WMError::UnknownWindow(window)
                    &&& final(self)@ == old(self)@
                },
            },
    {
        proof {
            if self@.is_managed(window) {
                self@.lemma_toggle_floating(window);
            }
        }
        match self.minimise_wm.toggle_floating(window) {
            Err(e) => Err(e),
            Ok(_) => {
                self.fullscreen_window = None;
                Ok(())
            },
        }
    }

    /// Move or resize a floating window.
    ///
    /// A minimised window that is recorded as floating comes back and is
    /// focused first. A tile keeps its place, and that is no error. The
    /// fullscreen window stays fullscreen unless it is the window that
    /// takes the geometry, or that window comes back from the minimised
    /// windows, see [`FullState::geometry_keeps_fullscreen`]. A window that
    /// is not managed is refused.
    pub fn set_window_geometry(&mut self, window: Window, new_geometry: Geometry) -> (res: Result<
        (),
        WMError,
    >)
        requires
            old(self)@.wf(),
        ensures
            final(self)@.wf(),
            match res {
                Ok(_) => {
                    &&& old(self)@.is_managed(window)
                    &&& final(self)@ == old(self)@.set_window_geometry(window, new_geometry)
                },
                Err(e) => {
                    &&& !old(self)@.is_managed(window)
                    &&& e == WMError::UnknownWindow(window)
                    &&& final(self)@ == old(self)@
                },
            },
    {
        if !self.minimise_wm.is_managed(window) {
            return Err(WMError::UnknownWindow(window));
        }
        proof {
            self@.lemma_set_window_geometry(window, new_geometry);
        }
        let keeps = match self.fullscreen_window {
            None => true,
            Some(f) => !self.recorded_floating(window) || (f != window
                && !self.minimise_wm.is_minimised(window)),
        };
        if !keeps {
            self.fullscreen_window = None;
        }
        self.minimise_wm.set_window_geometry(window, new_geometry)
    }

    /// Return the minimised windows, the one that was minimised first in
    /// front.
    pub fn get_minimised_windows(&self) -> (minimised: Vec<Window>)
        ensures
            minimised@ == self@.minimise.minimised,
    {
        self.minimise_wm.get_minimised_windows()
    }

    /// Tell whether `window` is minimised: whether `get_minimised_windows`
    /// lists it.
    pub fn is_minimised(&self, window: Window) -> (minimised: bool)
        ensures
            minimised == self@.minimise.is_minimised(window),
            minimised == self@.minimise.minimised.contains(window),
            self@.wf() && minimised ==> self@.is_managed(window),
    {
        self.minimise_wm.is_minimised(window)
    }

    /// Minimise a window, or bring it back if it is minimised.
    ///
    /// The fullscreen window is no longer fullscreen once it is minimised.
    /// A window that comes back gets the focus; it is fullscreen if it
    /// asked for that when it was added, and no other window stays
    /// fullscreen. A window that is not managed is refused.
    pub fn toggle_minimised(&mut self, window: Window) -> (res: Result<(), WMError>)
        requires
            old(self)@.wf(),
        ensures
            final(self)@.wf(),
            match res {
                Ok(_) => {
                    &&& old(self)@.is_managed(window)
                    &&& final(self)@ == old(self)@.toggle_minimised(window)
                    &&& final(self)@.minimise.is_minimised(window)
                        <==> !old(self)@.minimise.is_minimised(window)
                },
                Err(e) => {
                    &&& !old(self)@.is_managed(window)
                    &&& e == WMError::UnknownWindow(window)
                    &&& final(self)@ == old(self)@
                },
            },
    {
        let info = match self.minimise_wm.get_window_info(window) {
            Err(e) => {
                return Err(e);
            },
            Ok(info) => info,
        };
        proof {
            self@.lemma_toggle_minimised(window);
            self@.minimise.lemma_toggle_minimised(window);
        }
        if self.minimise_wm.is_minimised(window) {
            self.fullscreen_window = if info.fullscreen {
                Some(window)
            } else {
                None
            };
        } else if self.is_fullscreen(window) {
            self.fullscreen_window = None;
        }
        self.minimise_wm.toggle_minimised(window)
    }

    /// Return the fullscreen window, if there is one. It is managed and has
    /// the focus.
    pub fn get_fullscreen_window(&self) -> (fullscreen: Option<Window>)
        ensures
            fullscreen == self@.fullscreen,
            self@.wf() && fullscreen.is_some() ==> self@.focused() == fullscreen,
    {
        self.fullscreen_window
    }

    /// Make the given window fullscreen, or end it being fullscreen.
    ///
    /// A window that becomes fullscreen takes the place of the one that
    /// was, comes back if it was minimised, and gets the focus. A window
    /// that stops being fullscreen floats or tiles as is recorded for it;
    /// nothing else changes. A window that is not managed is refused.
    pub fn toggle_fullscreen(&mut self, window: Window) -> (res: Result<(), WMError>)
        requires
            old(self)@.wf(),
        ensures
            final(self)@.wf(),
            match res {
                Ok(_) => {
                    &&& old(self)@.is_managed(window)
                    &&& final(self)@ == old(self)@.toggle_fullscreen(window)
                    &&& final(self)@.fullscreen == if old(self)@.fullscreen == Some(window) {
                        None
                    } else {
                        Some(window)
                    }
                },
                Err(e) => {
                    &&& !old(self)@.is_managed(window)
                    &&& e == WMError::UnknownWindow(window)
                    &&& final(self)@ == old(self)@
                },
            },
    {
        if !self.minimise_wm.is_managed(window) {
            return Err(WMError::UnknownWindow(window));
        }
        proof {
            self@.lemma_toggle_fullscreen(window);
        }
        if self.is_fullscreen(window) {
            self.fullscreen_window = None;
            Ok(())
        } else {
            self.fullscreen_window = Some(window);
            self.minimise_wm.focus_window(Some(window))
        }
    }
}

impl WindowManager for FullWM {
    type Error = WMError;

    open spec fn wf(&self) -> bool {
        self@.wf()
    }

    open spec fn managed(&self) -> Seq<Window> {
        self@.minimise.windows()
    }

    open spec fn focus(&self) -> Option<Window> {
        self@.focused()
    }

    open spec fn screen(&self) -> Screen {
        self@.screen()
    }

    open spec fn lays_out(&self) -> bool {
        self@.fullscreen.is_none() ==> self@.minimise.floating.tiling.layout_fits()
    }

    open spec fn reach(&self) -> Seq<Window> {
        self@.minimise.windows()
    }

    open spec fn tells(&self, window: Window) -> bool {
        true
    }

    proof fn lemma_managed(&self) {
        if self@.focused().is_some() {
            assert(self@.minimise.windows()[self@.minimise.windows().len() - 1]
                == self@.minimise.windows().last());
        }
    }

    proof fn lemma_tells(&self, window: Window) {
    }

    fn new(screen: Screen) -> (wm: Self)
        ensures
            wm@ == FullState::start(screen),
            wm@.wf(),
    {
        FullWM::new(screen)
    }

    fn is_valid(&self) -> (valid: bool)
        ensures
            valid == self@.wf(),
    {
        FullWM::is_valid(self)
    }

    fn can_lay_out(&self) -> (fits: bool)
        ensures
            fits == (self@.fullscreen.is_none()
                ==> self@.minimise.floating.tiling.layout_fits()),
    {
        FullWM::can_lay_out(self)
    }

    fn get_window_layout(&self) -> (layout: WindowLayout)
        ensures
            layout.focused_window == self@.focused(),
            layout.windows@ == self@.layout_windows(),
            match self@.fullscreen {
                Some(f) => layout.focused_window == Some(f) && layout.windows@ == seq![
                    (f, self@.screen().spec_to_geometry()),
                ],
                None => true,
            },
            layout.shows_each_once(),
            layout.shows_focus(),
            forall|w: Window| #[trigger]
                layout.shows(w) ==> self@.is_managed(w) && !self@.minimise.is_minimised(w),
            self@.fullscreen.is_none() ==> forall|w: Window| #[trigger]
                layout.shows(w) <==> self@.is_managed(w) && !self@.minimise.is_minimised(w),
    {
        FullWM::get_window_layout(self)
    }

    fn is_managed(&self, window: Window) -> (managed: bool)
        ensures
            managed == self@.is_managed(window),
            managed == self@.minimise.windows().contains(window),
    {
        FullWM::is_managed(self, window)
    }

    fn get_windows(&self) -> (windows: Vec<Window>)
        ensures
            windows@ == self@.minimise.windows(),
    {
        FullWM::get_windows(self)
    }

    fn get_focused_window(&self) -> (focused: Option<Window>)
        ensures
            focused == self@.focused(),
    {
        FullWM::get_focused_window(self)
    }

    fn add_window(&mut self, window_with_info: WindowWithInfo) -> (res: Result<(), WMError>)
        ensures
            final(self)@.wf(),
            match res {
                Ok(_) => {
                    &&& !old(self)@.is_managed(window_with_info.window)
                    &&& final(self)@ == old(self)@.add_window(window_with_info)
                    &&& final(self)@.is_managed(window_with_info.window)
                    &&& final(self)@.focused() == Some(window_with_info.window)
                },
                Err(e) => {
                    &&& old(self)@.is_managed(window_with_info.window)
                    &&& e == WMError::AlreadyManagedWindow(window_with_info.window)
                    &&& final(self)@ == old(self)@
                },
            },
    {
        proof {
            if !self@.is_managed(window_with_info.window) {
                self@.lemma_add_window(window_with_info);
            }
        }
        FullWM::add_window(self, window_with_info)
    }

    fn remove_window(&mut self, window: Window) -> (res: Result<(), WMError>)
        ensures
            final(self)@.wf(),
            match res {
                Ok(_) => {
                    &&& old(self)@.is_managed(window)
                    &&& final(self)@ == old(self)@.remove_window(window)
                    &&& !final(self)@.is_managed(window)
                },
                Err(e) => {
                    &&& !old(self)@.is_managed(window)
                    &&& e == WMError::UnknownWindow(window)
                    &&& final(self)@ == old(self)@
                },
            },
    {
        proof {
            if self@.is_managed(window) {
                self@.lemma_remove_window(window);
                self@.minimise.lemma_remove_window(window);
            }
        }
        FullWM::remove_window(self, window)
    }

    fn focus_window(&mut self, window: Option<Window>) -> (res: Result<(), WMError>)
        ensures
            final(self)@.wf(),
            match window {
                None => res.is_ok() && final(self)@ == old(self)@.unfocus(),
                Some(w) => match res {
                    Ok(_) => {
                        &&& old(self)@.is_managed(w)
                        &&& final(self)@ == old(self)@.focus(w)
                    },
                    Err(e) => {
                        &&& !old(self)@.is_managed(w)
                        &&& e == WMError::UnknownWindow(w)
                        &&& final(self)@ == old(self)@
                    },
                },
            },
            res.is_ok() ==> final(self)@.focused() == window,
    {
        proof {
            match window {
                Some(w) => {
                    self@.lemma_focus_ops(w, PrevOrNext::Next);
                },
                None => {},
            }
        }
        FullWM::focus_window(self, window)
    }

    fn cycle_focus(&mut self, dir: PrevOrNext)
        ensures
            final(self)@.wf(),
            final(self)@ == old(self)@.cycle_focus(dir),
    {
        proof {
            self@.lemma_focus_ops(0, dir);
        }
        FullWM::cycle_focus(self, dir)
    }

    fn get_window_info(&self, window: Window) -> (res: Result<WindowWithInfo, WMError>)
        ensures
            match res {
                Ok(info) => self@.is_managed(window) && info == self@.minimise.info()[window],
                Err(e) => !self@.is_managed(window) && e == WMError::UnknownWindow(window),
            },
    {
        proof {
            if self@.is_managed(window) {
                assert(self@.minimise.info().contains_key(window));
            }
        }
        FullWM::get_window_info(self, window)
    }

    fn get_screen(&self) -> (screen: Screen)
        ensures
            screen == self@.screen(),
    {
        FullWM::get_screen(self)
    }

    fn resize_screen(&mut self, screen: Screen)
        ensures
            final(self)@ == old(self)@.resize_screen(screen),
            old(self)@.wf() ==> final(self)@.wf(),
    {
        FullWM::resize_screen(self, screen)
    }
}

impl TilingSupport for FullWM {
    open spec fn master(&self) -> Option<Window> {
        self@.minimise.floating.tiling.master()
    }

    fn get_master_window(&self) -> (master: Option<Window>)
        ensures
            master == self@.minimise.floating.tiling.master(),
    {
        proof {
            if self@.minimise.tiles().len() > 0 {
                assert(self@.minimise.tiles().contains(self@.minimise.tiles()[0]));
            }
        }
        FullWM::get_master_window(self)
    }

    fn swap_with_master(&mut self, window: Window) -> (res: Result<(), WMError>)
        ensures
            final(self)@.wf(),
            match res {
                Ok(_) => {
                    &&& old(self)@.is_managed(window)
                    &&& final(self)@ == old(self)@.swap_with_master(window)
                    &&& !old(self)@.floats(window) ==> {
                        &&& final(self)@.minimise.floating.tiling.master() == Some(window)
                        &&& final(self)@.focused() == Some(window)
                    }
                },
                Err(e) => {
                    &&& !old(self)@.is_managed(window)
                    &&& e == WMError::UnknownWindow(window)
                    &&& final(self)@ == old(self)@
                },
            },
    {
        proof {
            self@.lemma_focus_ops(window, PrevOrNext::Next);
        }
        FullWM::swap_with_master(self, window)
    }

    fn swap_windows(&mut self, dir: PrevOrNext)
        ensures
            final(self)@.wf(),
            final(self)@ == old(self)@.swap_windows(dir),
            final(self)@.focused() == old(self)@.focused(),
    {
        proof {
            self@.lemma_focus_ops(0, dir);
        }
        FullWM::swap_windows(self, dir)
    }
}

impl FloatSupport for FullWM {
    open spec fn floating(&self) -> Seq<Window> {
        self@.floating_windows()
    }

    proof fn lemma_floating(&self) {
        match self@.fullscreen {
            Some(f) => {
                assert forall|w: Window| #[trigger] self@.floating_windows().contains(w) implies w
                    == f by {
                    let k = choose|k: int|
                        0 <= k < self@.floating_windows().len() && self@.floating_windows()[k] == w;
                    assert(k == 0);
                }
            },
            None => {
                self@.minimise.floating.lemma_floating_windows();
            },
        }
    }

    fn get_floating_windows(&self) -> (floating: Vec<Window>)
        ensures
            floating@ == self@.floating_windows(),
    {
        FullWM::get_floating_windows(self)
    }

    fn is_floating(&self, window: Window) -> (floating: bool)
        ensures
            floating == self@.is_floating(window),
            floating == self@.floating_windows().contains(window),
            floating ==> self@.is_managed(window),
    {
        FullWM::is_floating(self, window)
    }

    fn toggle_floating(&mut self, window: Window) -> (res: Result<(), WMError>)
        ensures
            final(self)@.wf(),
            match res {
                Ok(_) => {
                    &&& old(self)@.is_managed(window)
                    &&& final(self)@ == old(self)@.toggle_floating(window)
                },
                Err(e) => {
                    &&& !old(self)@.is_managed(window)
                    &&& e == WMError::UnknownWindow(window)
                    &&& final(self)@ == old(self)@
                },
            },
    {
        proof {
            if self@.is_managed(window) {
                self@.lemma_toggle_floating(window);
            }
            if self@.floating_windows().contains(window) {
                self@.lemma_toggle_floating_sinks(window);
            }
        }
        FullWM::toggle_floating(self, window)
    }

    fn set_window_geometry(&mut self, window: Window, new_geometry: Geometry) -> (res: Result<
        (),
        WMError,
    >)
        ensures
            final(self)@.wf(),
            match res {
                Ok(_) => {
                    &&& old(self)@.is_managed(window)
                    &&& final(self)@ == old(self)@.set_window_geometry(window, new_geometry)
                },
                Err(e) => {
                    &&& !old(self)@.is_managed(window)
                    &&& e == WMError::UnknownWindow(window)
                    &&& final(self)@ == old(self)@
                },
            },
    {
        proof {
            if self@.is_managed(window) {
                self@.lemma_set_window_geometry(window, new_geometry);
            }
        }
        FullWM::set_window_geometry(self, window, new_geometry)
    }
}

impl MinimiseSupport for FullWM {
    open spec fn minimised(&self) -> Seq<Window> {
        self@.minimise.minimised
    }

    proof fn lemma_minimised(&self) {
    }

    fn get_minimised_windows(&self) -> (minimised: Vec<Window>)
        ensures
            minimised@ == self@.minimise.minimised,
    {
        FullWM::get_minimised_windows(self)
    }

    fn is_minimised(&self, window: Window) -> (minimised: bool)
        ensures
            minimised == self@.minimise.is_minimised(window),
            minimised == self@.minimise.minimised.contains(window),
            self@.wf() && minimised ==> self@.is_managed(window),
    {
        FullWM::is_minimised(self, window)
    }

    fn toggle_minimised(&mut self, window: Window) -> (res: Result<(), WMError>)
        ensures
            final(self)@.wf(),
            match res {
                Ok(_) => {
                    &&& old(self)@.is_managed(window)
                    &&& final(self)@ == old(self)@.toggle_minimised(window)
                    &&& final(self)@.minimise.is_minimised(window)
                        <==> !old(self)@.minimise.is_minimised(window)
                },
                Err(e) => {
                    &&& !old(self)@.is_managed(window)
                    &&& e == WMError::UnknownWindow(window)
                    &&& final(self)@ == old(self)@
                },
            },
    {
        proof {
            if self@.is_managed(window) {
                self@.lemma_toggle_minimised(window);
            }
        }
        FullWM::toggle_minimised(self, window)
    }
}

impl FullscreenSupport for FullWM {
    open spec fn fullscreen(&self) -> Option<Window> {
        self@.fullscreen
    }

    fn get_fullscreen_window(&self) -> (fullscreen: Option<Window>)
        ensures
            fullscreen == self@.fullscreen,
            self@.wf() && fullscreen.is_some() ==> self@.focused() == fullscreen,
    {
        FullWM::get_fullscreen_window(self)
    }

    fn toggle_fullscreen(&mut self, window: Window) -> (res: Result<(), WMError>)
        ensures
            final(self)@.wf(),
            match res {
                Ok(_) => {
                    &&& old(self)@.is_managed(window)
                    &&& final(self)@ == old(self)@.toggle_fullscreen(window)
                    &&& final(self)@.fullscreen == if old(self)@.fullscreen == Some(window) {
                        None
                    } else {
                        Some(window)
                    }
                },
                Err(e) => {
                    &&& !old(self)@.is_managed(window)
                    &&& e == WMError::UnknownWindow(window)
                    &&& final(self)@ == old(self)@
                },
            },
    {
        proof {
            if self@.is_managed(window) {
                self@.lemma_toggle_fullscreen(window);
            }
        }
        FullWM::toggle_fullscreen(self, window)
    }
}

} // verus!
