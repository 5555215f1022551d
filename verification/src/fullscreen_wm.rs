//! The simplest window manager: it shows one window at a time, as large as
//! the screen.

use vstd::prelude::*;
use crate::order::{
    has_no_duplicates, holds, lemma_push, lemma_rotated, lemma_to_back, lemma_without,
    lemma_without_keeps_last, rotate, rotated, send_to_back, take_out, to_back, without,
};
use crate::types::{
    lists, Geometry, PrevOrNext, Screen, Window, WindowLayout, WindowWithInfo,
};
use crate::wm::WindowManager;
use crate::wm_error::WMError;

verus! {

/// The state of a window manager that shows one window at a time.
pub struct FullscreenState {
    /// The managed windows in focus order. The last one is the window on
    /// the screen.
    pub windows: Seq<Window>,
    /// The screen.
    pub screen: Screen,
    /// Whether the window on the screen has the focus.
    pub is_focus: bool,
}

impl FullscreenState {
    /// The state of a window manager without windows.
    pub open spec fn start(screen: Screen) -> FullscreenState {
        FullscreenState { windows: Seq::empty(), screen, is_focus: false }
    }

    /// The state is well-formed: no window occurs twice, and there is no
    /// focus without a window.
    pub open spec fn wf(self) -> bool {
        &&& self.windows.no_duplicates()
        &&& self.is_focus ==> self.windows.len() > 0
    }

    /// Whether `w` is managed.
    pub open spec fn is_managed(self, w: Window) -> bool {
        self.windows.contains(w)
    }

    /// The focused window.
    pub open spec fn focused(self) -> Option<Window> {
        if self.is_focus && self.windows.len() > 0 {
            Some(self.windows.last())
        } else {
            None
        }
    }

    /// The window on the screen with its geometry: the last window of the
    /// focus order, as large as the screen.
    pub open spec fn layout_windows(self) -> Seq<(Window, Geometry)> {
        if self.windows.len() > 0 {
            seq![(self.windows.last(), self.screen.spec_to_geometry())]
        } else {
            Seq::empty()
        }
    }

    /// The state after the unmanaged window `w` has been added.
    pub open spec fn add_window(self, w: Window) -> FullscreenState {
        FullscreenState { windows: self.windows.push(w), is_focus: true, ..self }
    }

    /// The state after the window `w` has been removed.
    pub open spec fn remove_window(self, w: Window) -> FullscreenState {
        FullscreenState {
            windows: without(self.windows, w),
            is_focus: self.is_focus && without(self.windows, w).len() > 0,
            ..self
        }
    }

    /// The state after the focus has gone to the managed window `w`.
    pub open spec fn focus(self, w: Window) -> FullscreenState {
        FullscreenState { windows: to_back(self.windows, w), is_focus: true, ..self }
    }

    /// The state after the focus has been taken away.
    pub open spec fn unfocus(self) -> FullscreenState {
        FullscreenState { is_focus: false, ..self }
    }

    /// The state after the focus has moved to the previous or next window.
    pub open spec fn cycle_focus(self, dir: PrevOrNext) -> FullscreenState {
        if self.windows.len() == 0 {
            self
        } else {
            FullscreenState { windows: rotated(self.windows, dir), is_focus: true, ..self }
        }
    }

    /// The state after the screen has changed.
    pub open spec fn resize_screen(self, screen: Screen) -> FullscreenState {
        FullscreenState { screen, ..self }
    }

    /// Every operation keeps the state well-formed.
    pub proof fn lemma_wf(self, w: Window, dir: PrevOrNext)
        requires
            self.wf(),
        ensures
            !self.is_managed(w) ==> self.add_window(w).wf() && self.add_window(w).focused()
                == Some(w) && self.add_window(w).is_managed(w),
            self.remove_window(w).wf(),
            !self.remove_window(w).is_managed(w),
            !self.is_managed(w) ==> self.remove_window(w) == self,
            self.is_managed(w) ==> self.focus(w).wf() && self.focus(w).focused() == Some(w),
            self.unfocus().wf(),
            self.cycle_focus(dir).wf(),
    {
        lemma_without(self.windows, w);
        lemma_to_back(self.windows, w);
        lemma_rotated(self.windows, dir);
        if !self.is_managed(w) {
            lemma_push(self.windows, w);
        }
    }
}

/// A window manager that shows one window at a time, as large as the
/// screen.
#[derive(Clone, Debug)]
pub struct FullscreenWM {
    /// The managed windows in focus order. The last one is the window on
    /// the screen.
    pub windows: Vec<Window>,
    /// The screen.
    pub screen: Screen,
    /// Whether the window on the screen has the focus.
    pub is_focus: bool,
}

impl View for FullscreenWM {
    type V = FullscreenState;

    open spec fn view(&self) -> FullscreenState {
        FullscreenState { windows: self.windows@, screen: self.screen, is_focus: self.is_focus }
    }
}

impl FullscreenWM {
    /// A window manager without windows for the given screen.
    pub fn new(screen: Screen) -> (wm: FullscreenWM)
        ensures
            wm@ == FullscreenState::start(screen),
            wm@.wf(),
    {
        FullscreenWM { windows: Vec::new(), screen, is_focus: false }
    }

    /// Tell whether the window manager is well-formed. A window manager
    /// that was made by `new` and changed by its operations is; one that
    /// was put together from parts has to be checked.
    pub fn is_valid(&self) -> (valid: bool)
        ensures
            valid == self@.wf(),
    {
        has_no_duplicates(&self.windows) && (!self.is_focus || self.windows.len() > 0)
    }

    /// Return the managed windows in focus order.
    pub fn get_windows(&self) -> (windows: Vec<Window>)
        ensures
            windows@ == self@.windows,
    {
        self.windows.clone()
    }

    /// Tell whether `window` is managed: whether `get_windows` lists it.
    pub fn is_managed(&self, window: Window) -> (managed: bool)
        ensures
            managed == self@.is_managed(window),
            managed == self@.windows.contains(window),
    {
        holds(&self.windows, window)
    }

    /// Return the focused window, if there is one.
    pub fn get_focused_window(&self) -> (focused: Option<Window>)
        ensures
            focused == self@.focused(),
    {
        if self.is_focus && self.windows.len() > 0 {
            Some(self.windows[self.windows.len() - 1])
        } else {
            None
        }
    }

    /// Add a window, show it and focus it. A window that is already managed
    /// is refused.
    pub fn add_window(&mut self, window_with_info: WindowWithInfo) -> (res: Result<(), WMError>)
        requires
            old(self)@.wf(),
        ensures
            final(self)@.wf(),
            match res {
                Ok(_) => {
                    &&& !old(self)@.is_managed(window_with_info.window)
                    &&& final(self)@ == old(self)@.add_window(window_with_info.window)
                    &&& final(self)@.is_managed(window_with_info.window)
                    &&& final(self)@.focused() == Some(window_with_info.window)
                },
                Err(e) => {
                    &&& old(self)@.is_managed(window_with_info.window)
                    &&& e == WMError::AlreadyManagedWindow(window_with_info.window)
                    &&& final(self)@ == old(self)@
                },
            },
    {
        if holds(&self.windows, window_with_info.window) {
            return Err(WMError::AlreadyManagedWindow(window_with_info.window));
        }
        proof {
            self@.lemma_wf(window_with_info.window, PrevOrNext::Next);
        }
        self.windows.push(window_with_info.window);
        self.is_focus = true;
        Ok(())
    }

    /// Remove a window. The window before it in focus order takes its place
    /// on the screen. A window that is not managed is refused.
    pub fn remove_window(&mut self, window: Window) -> (res: Result<(), WMError>)
        requires
            old(self)@.wf(),
        ensures
            final(self)@.wf(),
            match res {
                Ok(_) => {
                    &&& old(self)@.is_managed(window)
                    &&& final(self)@ == old(self)@.remove_window(window)
                    &&& !final(self)@.is_managed(window)
                },
                Err(e) => {
                    &&& !old(self)@.is_managed(window)
                    &&& e == WMError::UnknownWindow(window)
                    &&& final(self)@ == old(self)@
                },
            },
    {
        proof {
            self@.lemma_wf(window, PrevOrNext::Next);
        }
        if !take_out(&mut self.windows, window) {
            return Err(WMError::UnknownWindow(window));
        }
        if self.windows.len() == 0 {
            self.is_focus = false;
        }
        Ok(())
    }

    /// Return the layout: the last window of the focus order, as large as
    /// the screen, and the focused window.
    pub fn get_window_layout(&self) -> (layout: WindowLayout)
        requires
            self@.wf(),
        ensures
            layout.focused_window == self@.focused(),
            layout.windows@ == self@.layout_windows(),
            layout.shows_each_once(),
            layout.shows_focus(),
            forall|w: Window| #[trigger]
                layout.shows(w) <==> self@.windows.len() > 0 && w == self@.windows.last(),
            forall|w: Window| #[trigger] layout.shows(w) ==> self@.is_managed(w),
    {
        let mut windows: Vec<(Window, Geometry)> = Vec::new();
        if self.windows.len() > 0 {
            windows.push((self.windows[self.windows.len() - 1], self.screen.to_geometry()));
        }
        assert(windows@ =~= self@.layout_windows());
        proof {
            let layout = self@.layout_windows();
            if self@.windows.len() > 0 {
                assert(layout[0].0 == self@.windows.last());
                assert(self@.windows[self@.windows.len() - 1] == self@.windows.last());
            }
            assert forall|w: Window| #[trigger]
                lists(layout, w) <==> self@.windows.len() > 0 && w == self@.windows.last() by {
                if lists(layout, w) {
                    let i = choose|i: int| 0 <= i < layout.len() && (#[trigger] layout[i]).0 == w;
                    assert(i == 0);
                }
            }
        }
        WindowLayout { focused_window: self.get_focused_window(), windows }
    }

    /// Focus the given window, or take the focus away when given `None`. A
    /// window that is not managed is refused.
    pub fn focus_window(&mut self, window: Option<Window>) -> (res: Result<(), WMError>)
        requires
            old(self)@.wf(),
        ensures
            final(self)@.wf(),
            match window {
                None => res.is_ok() && final(self)@ == old(self)@.unfocus(),
                Some(w) => match res {
                    Ok(_) => {
                        &&& old(self)@.is_managed(w)
                        &&& final(self)@ == old(self)@.focus(w)
                    },
                    Err(e) => {
                        &&& !old(self)@.is_managed(w)
                        &&& e == WMError::UnknownWindow(w)
                        &&& final(self)@ == old(self)@
                    },
                },
            },
            res.is_ok() ==> final(self)@.focused() == window,
    {
        match window {
            None => {
                self.is_focus = false;
                Ok(())
            },
            Some(w) => {
                if !holds(&self.windows, w) {
                    return Err(WMError::UnknownWindow(w));
                }
                proof {
                    self@.lemma_wf(w, PrevOrNext::Next);
                }
                send_to_back(&mut self.windows, w);
                self.is_focus = true;
                Ok(())
            },
        }
    }

    /// Focus the previous or the next window of the focus order, seen as a
    /// circle. Without windows nothing happens.
    pub fn cycle_focus(&mut self, dir: PrevOrNext)
        requires
            old(self)@.wf(),
        ensures
            final(self)@.wf(),
            final(self)@ == old(self)@.cycle_focus(dir),
    {
        proof {
            self@.lemma_wf(0, dir);
        }
        if self.windows.len() == 0 {
            return ;
        }
        rotate(&mut self.windows, dir);
        self.is_focus = true;
    }

    /// Return what the window manager knows about a window: it is tiled,
    /// not fullscreen, and as large as the screen. A window that is not
    /// managed is refused.
    pub fn get_window_info(&self, window: Window) -> (res: Result<WindowWithInfo, WMError>)
        ensures
            match res {
                Ok(info) => self@.is_managed(window) && info == (WindowWithInfo {
                    window,
                    geometry: self@.screen.spec_to_geometry(),
                    float_or_tile: crate::types::FloatOrTile::Tile,
                    fullscreen: false,
                }),
                Err(e) => !self@.is_managed(window) && e == WMError::UnknownWindow(window),
            },
    {
        if holds(&self.windows, window) {
            Ok(WindowWithInfo::new_tiled(window, self.screen.to_geometry()))
        } else {
            Err(WMError::UnknownWindow(window))
        }
    }

    /// Return the screen.
    pub fn get_screen(&self) -> (screen: Screen)
        ensures
            screen == self@.screen,
    {
        self.screen
    }

    /// Take note of a new screen.
    pub fn resize_screen(&mut self, screen: Screen)
        ensures
            final(self)@ == old(self)@.resize_screen(screen),
            old(self)@.wf() ==> final(self)@.wf(),
    {
        self.screen = screen;
    }
}

impl WindowManager for FullscreenWM {
    type Error = WMError;

    open spec fn wf(&self) -> bool {
        self@.wf()
    }

    open spec fn managed(&self) -> Seq<Window> {
        self@.windows
    }

    open spec fn focus(&self) -> Option<Window> {
        self@.focused()
    }

    open spec fn screen(&self) -> Screen {
        self@.screen
    }

    open spec fn lays_out(&self) -> bool {
        true
    }

    open spec fn reach(&self) -> Seq<Window> {
        self@.windows
    }

    open spec fn tells(&self, window: Window) -> bool {
        true
    }

    proof fn lemma_managed(&self) {
        if self@.focused().is_some() {
            assert(self@.windows[self@.windows.len() - 1] == self@.windows.last());
        }
    }

    proof fn lemma_tells(&self, window: Window) {
    }

    fn new(screen: Screen) -> (wm: Self)
        ensures
            wm@ == FullscreenState::start(screen),
            wm@.wf(),
    {
        FullscreenWM::new(screen)
    }

    fn is_valid(&self) -> (valid: bool)
        ensures
            valid == self@.wf(),
    {
        FullscreenWM::is_valid(self)
    }

    fn can_lay_out(&self) -> (fits: bool) {
        true
    }

    fn get_window_layout(&self) -> (layout: WindowLayout)
        ensures
            layout.focused_window == self@.focused(),
            layout.windows@ == self@.layout_windows(),
            layout.shows_each_once(),
            layout.shows_focus(),
            forall|w: Window| #[trigger]
                layout.shows(w) <==> self@.windows.len() > 0 && w == self@.windows.last(),
            forall|w: Window| #[trigger] layout.shows(w) ==> self@.is_managed(w),
    {
        FullscreenWM::get_window_layout(self)
    }

    fn is_managed(&self, window: Window) -> (managed: bool)
        ensures
            managed == self@.is_managed(window),
            managed == self@.windows.contains(window),
    {
        FullscreenWM::is_managed(self, window)
    }

    fn get_windows(&self) -> (windows: Vec<Window>)
        ensures
            windows@ == self@.windows,
    {
        FullscreenWM::get_windows(self)
    }

    fn get_focused_window(&self) -> (focused: Option<Window>)
        ensures
            focused == self@.focused(),
    {
        FullscreenWM::get_focused_window(self)
    }

    fn add_window(&mut self, window_with_info: WindowWithInfo) -> (res: Result<(), WMError>)
        ensures
            final(self)@.wf(),
            match res {
                Ok(_) => {
                    &&& !old(self)@.is_managed(window_with_info.window)
                    &&& final(self)@ == old(self)@.add_window(window_with_info.window)
                    &&& final(self)@.is_managed(window_with_info.window)
                    &&& final(self)@.focused() == Some(window_with_info.window)
                },
                Err(e) => {
                    &&& old(self)@.is_managed(window_with_info.window)
                    &&& e == WMError::AlreadyManagedWindow(window_with_info.window)
                    &&& final(self)@ == old(self)@
                },
            },
    {
        proof {
            if !self@.is_managed(window_with_info.window) {
                lemma_push(self@.windows, window_with_info.window);
            }
        }
        FullscreenWM::add_window(self, window_with_info)
    }

    fn remove_window(&mut self, window: Window) -> (res: Result<(), WMError>)
        ensures
            final(self)@.wf(),
            match res {
                Ok(_) => {
                    &&& old(self)@.is_managed(window)
                    &&& final(self)@ == old(self)@.remove_window(window)
                    &&& !final(self)@.is_managed(window)
                },
                Err(e) => {
                    &&& !old(self)@.is_managed(window)
                    &&& e == WMError::UnknownWindow(window)
                    &&& final(self)@ == old(self)@
                },
            },
    {
        proof {
            lemma_without(self@.windows, window);
            if self@.focused().is_some() && self@.focused() != Some(window) {
                lemma_without_keeps_last(self@.windows, window);
            }
        }
        FullscreenWM::remove_window(self, window)
    }

    fn focus_window(&mut self, window: Option<Window>) -> (res: Result<(), WMError>)
        ensures
            final(self)@.wf(),
            match window {
                None => res.is_ok() && final(self)@ == old(self)@.unfocus(),
                Some(w) => match res {
                    Ok(_) => {
                        &&& old(self)@.is_managed(w)
                        &&& final(self)@ == old(self)@.focus(w)
                    },
                    Err(e) => {
                        &&& !old(self)@.is_managed(w)
                        &&& e == WMError::UnknownWindow(w)
                        &&& final(self)@ == old(self)@
                    },
                },
            },
            res.is_ok() ==> final(self)@.focused() == window,
    {
        proof {
            match window {
                Some(w) => {
                    lemma_to_back(self@.windows, w);
                },
                None => {},
            }
        }
        FullscreenWM::focus_window(self, window)
    }

    fn cycle_focus(&mut self, dir: PrevOrNext)
        ensures
            final(self)@.wf(),
            final(self)@ == old(self)@.cycle_focus(dir),
    {
        proof {
            lemma_rotated(self@.windows, dir);
        }
        FullscreenWM::cycle_focus(self, dir)
    }

    fn get_window_info(&self, window: Window) -> (res: Result<WindowWithInfo, WMError>)
        ensures
            match res {
                Ok(info) => self@.is_managed(window) && info == (WindowWithInfo {
                    window,
                    geometry: self@.screen.spec_to_geometry(),
                    float_or_tile: crate::types::FloatOrTile::Tile,
                    fullscreen: false,
                }),
                Err(e) => !self@.is_managed(window) && e == WMError::UnknownWindow(window),
            },
    {
        FullscreenWM::get_window_info(self, window)
    }

    fn get_screen(&self) -> (screen: Screen)
        ensures
            screen == self@.screen,
    {
        FullscreenWM::get_screen(self)
    }

    fn resize_screen(&mut self, screen: Screen)
        ensures
            final(self)@ == old(self)@.resize_screen(screen),
            old(self)@.wf() ==> final(self)@.wf(),
    {
        FullscreenWM::resize_screen(self, screen)
    }
}

} // verus!
