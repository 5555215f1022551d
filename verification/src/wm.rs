//! What a window manager offers, one trait for each capability.
//!
//! The traits state what holds of every window manager that has the
//! capability. A window manager states in its own module exactly what each
//! of its operations does.

use vstd::prelude::*;
use crate::order::holds;
use crate::types::{
    GapSize, Geometry, MAX_WORKSPACE_INDEX, PrevOrNext, Screen, Window, WindowLayout,
    WindowWithInfo, WorkspaceIndex,
};

verus! {

/// A basic window manager: it manages windows, one of which may have the
/// focus, and lays them out on a screen.
pub trait WindowManager: Sized {
    /// The type of the errors of the window manager.
    type Error;

    /// Whether the window manager is well-formed, taken on its own and not
    /// as a layer of another one. A new window manager is, and every
    /// operation keeps it so.
    spec fn wf(&self) -> bool;

    /// The managed windows, in the order in which `get_windows` lists them.
    /// None occurs twice.
    spec fn managed(&self) -> Seq<Window>;

    /// The focused window.
    spec fn focus(&self) -> Option<Window>;

    /// The screen.
    spec fn screen(&self) -> Screen;

    /// The windows among which the focus cycles. They are managed windows:
    /// where there are workspaces, those of the current one.
    spec fn reach(&self) -> Seq<Window>;

    /// Whether the layout can be written down: whether the places of all
    /// the windows that it shows are within the range of the coordinates.
    spec fn lays_out(&self) -> bool;

    /// Whether what is known about a window can be written down: whether
    /// its place, where that is asked for, is within the range of the
    /// coordinates.
    spec fn tells(&self, window: Window) -> bool;

    /// A well-formed window manager lists no window twice. The windows
    /// among which the focus cycles are managed, and the focused window is
    /// one of them.
    proof fn lemma_managed(&self)
        requires
            self.wf(),
        ensures
            self.managed().no_duplicates(),
            forall|w: Window| #[trigger] self.reach().contains(w) ==> self.managed().contains(w),
            match self.focus() {
                Some(f) => self.reach().contains(f) && self.managed().contains(f),
                None => true,
            },
    ;

    /// Where the layout can be written down, so can what is known about
    /// every window.
    proof fn lemma_tells(&self, window: Window)
        requires
            self.wf(),
            self.lays_out(),
        ensures
            self.tells(window),
    ;

    /// A window manager without windows for the given screen.
    fn new(screen: Screen) -> (wm: Self)
        ensures
            wm.wf(),
            wm.managed() == Seq::<Window>::empty(),
            wm.focus().is_none(),
            wm.screen() == screen,
    ;

    /// Tell whether the window manager is well-formed. A window manager
    /// that was put together from parts, as when it is restored from what
    /// was saved, has to be checked before it is used.
    fn is_valid(&self) -> (valid: bool)
        ensures
            valid == self.wf(),
    ;

    /// Tell whether the layout can be written down.
    fn can_lay_out(&self) -> (fits: bool)
        requires
            self.wf(),
        ensures
            fits == self.lays_out(),
    ;

    /// Return the layout: the visible windows with their places, and the
    /// focused window. The layout places managed windows only and none of
    /// them twice, and the focused window is one of them.
    fn get_window_layout(&self) -> (layout: WindowLayout)
        requires
            self.wf(),
            self.lays_out(),
        ensures
            layout.focused_window == self.focus(),
            layout.shows_focus(),
            layout.shows_each_once(),
            forall|w: Window| #[trigger] layout.shows(w) ==> self.managed().contains(w),
    ;

    /// Tell whether a window is managed: whether `get_windows` lists it.
    fn is_managed(&self, window: Window) -> (managed: bool)
        requires
            self.wf(),
        ensures
            managed == self.managed().contains(window),
    {
        let windows = self.get_windows();
        holds(&windows, window)
    }

    /// Return the managed windows, visible or not.
    fn get_windows(&self) -> (windows: Vec<Window>)
        requires
            self.wf(),
        ensures
            windows@ == self.managed(),
    ;

    /// Return the focused window, if there is one.
    fn get_focused_window(&self) -> (focused: Option<Window>)
        requires
            self.wf(),
        ensures
            focused == self.focus(),
    ;

    /// Add a window and focus it. It succeeds exactly on a window that is
    /// not managed yet; otherwise it changes nothing.
    fn add_window(&mut self, window_with_info: WindowWithInfo) -> (res: Result<(), Self::Error>)
        requires
            old(self).wf(),
        ensures
            final(self).wf(),
            final(self).screen() == old(self).screen(),
            res.is_ok() <==> !old(self).managed().contains(window_with_info.window),
            res.is_ok() ==> final(self).focus() == Some(window_with_info.window),
            res.is_ok() ==> forall|w: Window| #[trigger]
                final(self).managed().contains(w) <==> old(self).managed().contains(w) || w
                    == window_with_info.window,
            res.is_err() ==> final(self).managed() == old(self).managed() && final(self).focus()
                == old(self).focus(),
    ;

    /// Remove a window. It succeeds exactly on a managed window; otherwise
    /// it changes nothing. Another window that had the focus keeps it.
    fn remove_window(&mut self, window: Window) -> (res: Result<(), Self::Error>)
        requires
            old(self).wf(),
        ensures
            final(self).wf(),
            final(self).screen() == old(self).screen(),
            res.is_ok() <==> old(self).managed().contains(window),
            res.is_ok() ==> forall|w: Window| #[trigger]
                final(self).managed().contains(w) <==> old(self).managed().contains(w) && w
                    != window,
            res.is_ok() && old(self).focus().is_some() && old(self).focus() != Some(window)
                ==> final(self).focus() == old(self).focus(),
            res.is_err() ==> final(self).managed() == old(self).managed() && final(self).focus()
                == old(self).focus(),
    ;

    /// Focus the given window, or no window when given `None`. It succeeds
    /// on `None` and on a managed window; otherwise it changes nothing.
    fn focus_window(&mut self, window: Option<Window>) -> (res: Result<(), Self::Error>)
        requires
            old(self).wf(),
        ensures
            final(self).wf(),
            final(self).screen() == old(self).screen(),
            res.is_ok() <==> match window {
                Some(w) => old(self).managed().contains(w),
                None => true,
            },
            res.is_ok() ==> final(self).focus() == window,
            res.is_err() ==> final(self).focus() == old(self).focus(),
            forall|w: Window| #[trigger]
                final(self).managed().contains(w) <==> old(self).managed().contains(w),
    ;

    /// Focus the previous or the next window. Afterwards one of the
    /// windows among which the focus cycles has the focus, if there is
    /// any.
    fn cycle_focus(&mut self, dir: PrevOrNext)
        requires
            old(self).wf(),
        ensures
            final(self).wf(),
            final(self).screen() == old(self).screen(),
            final(self).focus().is_some() <==> old(self).reach().len() > 0,
            forall|w: Window| #[trigger]
                final(self).reach().contains(w) <==> old(self).reach().contains(w),
            forall|w: Window| #[trigger]
                final(self).managed().contains(w) <==> old(self).managed().contains(w),
    ;

    /// Return what the window manager knows about a window. It succeeds
    /// exactly on a managed window.
    fn get_window_info(&self, window: Window) -> (res: Result<WindowWithInfo, Self::Error>)
        requires
            self.wf(),
            self.tells(window),
        ensures
            match res {
                Ok(info) => self.managed().contains(window) && info.window == window,
                Err(_) => !self.managed().contains(window),
            },
    ;

    /// Return the screen.
    fn get_screen(&self) -> (screen: Screen)
        requires
            self.wf(),
        ensures
            screen == self.screen(),
    ;

    /// Take note of a new screen.
    fn resize_screen(&mut self, screen: Screen)
        requires
            old(self).wf(),
        ensures
            final(self).wf(),
            final(self).screen() == screen,
            final(self).managed() == old(self).managed(),
            final(self).focus() == old(self).focus(),
    ;
}

/// A window manager that tiles windows: one of the tiles is the master
/// tile.
pub trait TilingSupport: WindowManager {
    /// The window in the master tile.
    spec fn master(&self) -> Option<Window>;

    /// Return the window in the master tile, if there is a tile. It is a
    /// managed window.
    fn get_master_window(&self) -> (master: Option<Window>)
        requires
            self.wf(),
        ensures
            master == self.master(),
            match master {
                Some(w) => self.managed().contains(w),
                None => true,
            },
    ;

    /// Exchange the given window with the master window. Where it
    /// succeeds, the window is the master window and has the focus, or else
    /// it is no tile and neither the master window nor the focus has
    /// changed. It fails on a window that is not managed, and where it
    /// fails it changes nothing.
    fn swap_with_master(&mut self, window: Window) -> (res: Result<(), Self::Error>)
        requires
            old(self).wf(),
        ensures
            final(self).wf(),
            final(self).screen() == old(self).screen(),
            res.is_ok() ==> old(self).managed().contains(window),
            res.is_ok() ==> {
                ||| final(self).master() == Some(window) && final(self).focus() == Some(window)
                ||| final(self).master() == old(self).master() && final(self).focus() == old(self)
                    .focus()
            },
            res.is_err() ==> final(self).focus() == old(self).focus() && final(self).master()
                == old(self).master(),
            forall|w: Window| #[trigger]
                final(self).managed().contains(w) <==> old(self).managed().contains(w),
    ;

    /// Exchange the tile of the focused window with the previous or the
    /// next tile. The focus stays where it is.
    fn swap_windows(&mut self, dir: PrevOrNext)
        requires
            old(self).wf(),
        ensures
            final(self).wf(),
            final(self).screen() == old(self).screen(),
            final(self).focus() == old(self).focus(),
            final(self).managed() == old(self).managed(),
    ;
}

/// A window manager with windows that float above the tiles.
pub trait FloatSupport: WindowManager {
    /// The floating windows that the layout shows, in the order in which
    /// `get_floating_windows` lists them.
    spec fn floating(&self) -> Seq<Window>;

    /// Every floating window that the layout shows is managed.
    proof fn lemma_floating(&self)
        requires
            self.wf(),
        ensures
            forall|w: Window| #[trigger]
                self.floating().contains(w) ==> self.managed().contains(w),
    ;

    /// Return the floating windows that the layout shows.
    fn get_floating_windows(&self) -> (floating: Vec<Window>)
        requires
            self.wf(),
        ensures
            floating@ == self.floating(),
    ;

    /// Tell whether the layout shows a window floating: whether
    /// `get_floating_windows` lists it.
    fn is_floating(&self, window: Window) -> (floating: bool)
        requires
            self.wf(),
        ensures
            floating == self.floating().contains(window),
    {
        let floating = self.get_floating_windows();
        holds(&floating, window)
    }

    /// Let a floating window sink, or set a tiled window afloat. A window
    /// that the layout showed floating does not float afterwards. It
    /// succeeds exactly on a managed window; otherwise it changes nothing.
    fn toggle_floating(&mut self, window: Window) -> (res: Result<(), Self::Error>)
        requires
            old(self).wf(),
        ensures
            final(self).wf(),
            final(self).screen() == old(self).screen(),
            res.is_ok() <==> old(self).managed().contains(window),
            res.is_ok() && old(self).floating().contains(window) ==> !final(self)
                .floating().contains(window),
            res.is_err() ==> final(self).floating() == old(self).floating() && final(self).focus()
                == old(self).focus(),
            forall|w: Window| #[trigger]
                final(self).managed().contains(w) <==> old(self).managed().contains(w),
    ;

    /// Move or resize a floating window. It succeeds exactly on a managed
    /// window; otherwise it changes nothing.
    fn set_window_geometry(&mut self, window: Window, new_geometry: Geometry) -> (res: Result<
        (),
        Self::Error,
    >)
        requires
            old(self).wf(),
        ensures
            final(self).wf(),
            final(self).screen() == old(self).screen(),
            res.is_ok() <==> old(self).managed().contains(window),
            res.is_err() ==> final(self).floating() == old(self).floating() && final(self).focus()
                == old(self).focus(),
            forall|w: Window| #[trigger]
                final(self).managed().contains(w) <==> old(self).managed().contains(w),
    ;
}

/// A window manager with windows that can be minimised.
pub trait MinimiseSupport: WindowManager {
    /// The minimised windows, in the order in which
    /// `get_minimised_windows` lists them.
    spec fn minimised(&self) -> Seq<Window>;

    /// Every minimised window is managed.
    proof fn lemma_minimised(&self)
        requires
            self.wf(),
        ensures
            forall|w: Window| #[trigger]
                self.minimised().contains(w) ==> self.managed().contains(w),
    ;

    /// Return the minimised windows: a window that was minimised earlier
    /// comes before one that was minimised later.
    fn get_minimised_windows(&self) -> (minimised: Vec<Window>)
        requires
            self.wf(),
        ensures
            minimised@ == self.minimised(),
    ;

    /// Tell whether a window is minimised: whether `get_minimised_windows`
    /// lists it.
    fn is_minimised(&self, window: Window) -> (minimised: bool)
        requires
            self.wf(),
        ensures
            minimised == self.minimised().contains(window),
    {
        let minimised = self.get_minimised_windows();
        holds(&minimised, window)
    }

    /// Minimise a window, or bring it back if it is minimised. It succeeds
    /// exactly on a managed window; otherwise it changes nothing.
    fn toggle_minimised(&mut self, window: Window) -> (res: Result<(), Self::Error>)
        requires
            old(self).wf(),
        ensures
            final(self).wf(),
            final(self).screen() == old(self).screen(),
            res.is_ok() <==> old(self).managed().contains(window),
            res.is_ok() ==> (final(self).minimised().contains(window) <==> !old(self)
                .minimised().contains(window)),
            res.is_err() ==> final(self).minimised() == old(self).minimised(),
            res.is_err() ==> final(self).focus() == old(self).focus(),
            forall|w: Window| #[trigger]
                final(self).managed().contains(w) <==> old(self).managed().contains(w),
    ;
}

/// A window manager in which one window can be fullscreen.
pub trait FullscreenSupport: WindowManager {
    /// The fullscreen window.
    spec fn fullscreen(&self) -> Option<Window>;

    /// Return the fullscreen window, if there is one. It has the focus.
    fn get_fullscreen_window(&self) -> (fullscreen: Option<Window>)
        requires
            self.wf(),
        ensures
            fullscreen == self.fullscreen(),
            fullscreen.is_some() ==> self.focus() == fullscreen,
    ;

    /// Make a window fullscreen, or end it being fullscreen. It succeeds
    /// exactly on a managed window; otherwise it changes nothing.
    fn toggle_fullscreen(&mut self, window: Window) -> (res: Result<(), Self::Error>)
        requires
            old(self).wf(),
        ensures
            final(self).wf(),
            final(self).screen() == old(self).screen(),
            res.is_ok() <==> old(self).managed().contains(window),
            res.is_ok() ==> final(self).fullscreen() == if old(self).fullscreen() == Some(window) {
                None
            } else {
                Some(window)
            },
            res.is_err() ==> final(self).fullscreen() == old(self).fullscreen(),
            res.is_err() ==> final(self).focus() == old(self).focus(),
            forall|w: Window| #[trigger]
                final(self).managed().contains(w) <==> old(self).managed().contains(w),
    ;
}

/// A window manager that keeps a gap around its tiles.
pub trait GapSupport: WindowManager {
    /// The size of the gap.
    spec fn gap(&self) -> GapSize;

    /// Return the size of the gap.
    fn get_gap(&self) -> (gap: GapSize)
        requires
            self.wf(),
        ensures
            gap == self.gap(),
    ;

    /// Set the size of the gap.
    fn set_gap(&mut self, gapsize: GapSize)
        requires
            old(self).wf(),
        ensures
            final(self).wf(),
            final(self).gap() == gapsize,
            final(self).screen() == old(self).screen(),
            final(self).managed() == old(self).managed(),
            final(self).focus() == old(self).focus(),
    ;
}

/// A window manager with `MAX_WORKSPACE_INDEX + 1` workspaces, each with a
/// window manager of its own.
pub trait MultiWorkspaceSupport<WM: WindowManager>: WindowManager {
    /// The index of the current workspace.
    spec fn current_index(&self) -> WorkspaceIndex;

    /// Return the index of the current workspace.
    fn get_current_workspace_index(&self) -> (index: WorkspaceIndex)
        requires
            self.wf(),
        ensures
            index == self.current_index(),
            index <= MAX_WORKSPACE_INDEX,
    ;

    /// Return the window manager of a workspace. It succeeds exactly on an
    /// index up to `MAX_WORKSPACE_INDEX`.
    fn get_workspace(&self, index: WorkspaceIndex) -> (res: Result<&WM, Self::Error>)
        requires
            self.wf(),
        ensures
            res.is_ok() <==> index <= MAX_WORKSPACE_INDEX,
            match res {
                Ok(workspace) => workspace.wf(),
                Err(_) => true,
            },
    ;

    /// Lend out the window manager of a workspace. It succeeds exactly on
    /// an index up to `MAX_WORKSPACE_INDEX`.
    fn get_workspace_mut(&mut self, index: WorkspaceIndex) -> (res: Result<&mut WM, Self::Error>)
        requires
            old(self).wf(),
        ensures
            res.is_ok() <==> index <= MAX_WORKSPACE_INDEX,
            match res {
                Ok(workspace) => workspace.wf(),
                Err(_) => true,
            },
    ;

    /// Make a workspace the current one. It succeeds exactly on an index up
    /// to `MAX_WORKSPACE_INDEX`; otherwise it changes nothing.
    fn switch_workspace(&mut self, index: WorkspaceIndex) -> (res: Result<(), Self::Error>)
        requires
            old(self).wf(),
        ensures
            final(self).wf(),
            final(self).screen() == old(self).screen(),
            final(self).managed() == old(self).managed(),
            res.is_ok() <==> index <= MAX_WORKSPACE_INDEX,
            res.is_ok() ==> final(self).current_index() == index,
            res.is_err() ==> final(self).current_index() == old(self).current_index(),
            res.is_err() ==> final(self).focus() == old(self).focus(),
    ;
}

} // verus!
