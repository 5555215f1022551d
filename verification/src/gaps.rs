//! Gaps around the tiles of the tiling window manager.
//!
//! Every tile is moved right and down by the size of the gap and shrunk by
//! twice that size, so that it keeps the gap free on each of its sides.

use vstd::prelude::*;
use crate::tiling::{tile_geometry, TilingState, TilingWM};
use crate::types::{
    each_once, lists,GapSize, Geometry, PrevOrNext, Screen, Window, WindowLayout, WindowWithInfo};
use crate::wm::{GapSupport, TilingSupport, WindowManager};
use crate::wm_error::WMError;

verus! {

/// The geometry `g` with a gap of `gap` kept free on each side.
pub open spec fn inset(g: Geometry, gap: GapSize) -> Geometry {
    Geometry {
        x: (g.x + gap) as i32,
        y: (g.y + gap) as i32,
        width: (g.width - 2 * gap) as u32,
        height: (g.height - 2 * gap) as u32,
    }
}

/// Whether a gap of `gap` fits into the geometry `g`: the geometry is not
/// smaller than the gap on both of its sides, and its corner stays within
/// the range of the coordinates.
pub open spec fn gap_fits(g: Geometry, gap: GapSize) -> bool {
    &&& 2 * gap <= g.width
    &&& 2 * gap <= g.height
    &&& i32::MIN <= g.x + gap <= i32::MAX
    &&& i32::MIN <= g.y + gap <= i32::MAX
}

/// The state of a tiling window manager with gaps.
pub struct GapsState {
    /// The state of the tiling window manager underneath.
    pub tiling: TilingState,
    /// The size of the gap.
    pub gap: GapSize,
}

impl GapsState {
    /// The state of a window manager without windows and without gap.
    pub open spec fn start(screen: Screen) -> GapsState {
        GapsState { tiling: TilingState::start(screen), gap: 0 }
    }

    /// The state is well-formed: the tiling state is, and every managed
    /// window is a tile.
    pub open spec fn wf(self) -> bool {
        self.tiling.wf() && self.tiling.all_tiled()
    }

    /// Whether the gap fits into every tile.
    pub open spec fn gap_fits(self) -> bool {
        forall|i: int|
            0 <= i < self.tiling.tiles.len() ==> gap_fits(
                #[trigger] tile_geometry(self.tiling.screen, self.tiling.tiles.len() as int, i),
                self.gap,
            )
    }

    /// The tiles with their geometry, each of them inset by the gap.
    pub open spec fn layout_windows(self) -> Seq<(Window, Geometry)> {
        Seq::new(
            self.tiling.tiles.len(),
            |i: int|
                (
                    self.tiling.tiles[i],
                    inset(
                        tile_geometry(self.tiling.screen, self.tiling.tiles.len() as int, i),
                        self.gap,
                    ),
                ),
        )
    }

    /// The layout places exactly the managed windows, none of them twice,
    /// and the focused window is one of them.
    pub proof fn lemma_layout_lists(self, w: Window)
        requires
            self.wf(),
        ensures
            each_once(self.layout_windows()),
            lists(self.layout_windows(), w) <==> self.tiling.is_managed(w),
            self.tiling.focused() == Some(w) ==> lists(self.layout_windows(), w),
    {
        let layout = self.layout_windows();
        let plain = self.tiling.layout_windows();
        self.tiling.lemma_layout_lists(w);
        assert forall|i: int, j: int| 0 <= i < j < layout.len() implies (#[trigger] layout[i]).0 != (
        #[trigger] layout[j]).0 by {
            assert(plain[i].0 != plain[j].0);
        }
        if lists(layout, w) {
            let i = choose|i: int| 0 <= i < layout.len() && (#[trigger] layout[i]).0 == w;
            assert(plain[i].0 == w);
        }
        if lists(plain, w) {
            let i = choose|i: int| 0 <= i < plain.len() && (#[trigger] plain[i]).0 == w;
            assert(layout[i].0 == w);
        }
    }

    /// Without a gap the layout is the layout of the tiling window manager.
    pub proof fn lemma_no_gap(self)
        requires
            self.gap == 0,
        ensures
            self.gap_fits(),
            self.layout_windows() == self.tiling.layout_windows(),
    {
        assert forall|i: int| 0 <= i < self.tiling.tiles.len() implies inset(
            tile_geometry(self.tiling.screen, self.tiling.tiles.len() as int, i),
            0,
        ) == tile_geometry(self.tiling.screen, self.tiling.tiles.len() as int, i) by {}
        assert(self.layout_windows() =~= self.tiling.layout_windows());
    }
}

/// A tiling window manager with gaps around its tiles.
#[derive(Clone, Debug)]
pub struct GapsWM {
    /// The tiling window manager underneath.
    pub tiling_wm: TilingWM,
    /// The size of the gap, 0 at first.
    pub gap: GapSize,
}

impl View for GapsWM {
    type V = GapsState;

    open spec fn view(&self) -> GapsState {
        GapsState { tiling: self.tiling_wm@, gap: self.gap }
    }
}

impl GapsWM {
    /// A window manager without windows and without gap for the given
    /// screen.
    pub fn new(screen: Screen) -> (wm: GapsWM)
        ensures
            wm@ == GapsState::start(screen),
            wm@.wf(),
    {
        GapsWM { tiling_wm: TilingWM::new(screen), gap: 0 }
    }

    /// Tell whether the window manager is well-formed. A window manager
    /// that was made by `new` and changed by its operations is; one that
    /// was put together from parts has to be checked.
    pub fn is_valid(&self) -> (valid: bool)
        ensures
            valid == self@.wf(),
    {
        self.tiling_wm.is_valid() && self.tiling_wm.shows_all()
    }

    /// Tell whether the layout can be written down: whether the offsets of
    /// all tiles fit the signed coordinates of a geometry, and the gap fits
    /// into every tile.
    pub fn can_lay_out(&self) -> (fits: bool)
        ensures
            fits == (self@.tiling.layout_fits() && self@.gap_fits()),
    {
        if !self.tiling_wm.can_lay_out() {
            return false;
        }
        let gap = self.gap;
        let mut i: usize = 0;
        while i < self.tiling_wm.tiles.len()
            invariant
                i <= self@.tiling.tiles.len(),
                gap == self@.gap,
                self@.tiling.layout_fits(),
                forall|k: int|
                    0 <= k < i ==> gap_fits(
                        #[trigger] tile_geometry(
                            self@.tiling.screen,
                            self@.tiling.tiles.len() as int,
                            k,
                        ),
                        self@.gap,
                    ),
            decreases self@.tiling.tiles.len() - i,
        {
            let geometry = self.tiling_wm.geometry_of_tile(i);
            let room = gap <= 0x7fff_ffff && 2 * (gap as u64) <= geometry.width as u64 && 2 * (
            gap as u64) <= geometry.height as u64 && geometry.x as i64 + gap as i64 <= 0x7fff_ffff
                && geometry.y as i64 + gap as i64 <= 0x7fff_ffff && geometry.x as i64 + gap as i64
                >= -0x8000_0000 && geometry.y as i64 + gap as i64 >= -0x8000_0000;
            if !room {
                assert(!gap_fits(
                    tile_geometry(self@.tiling.screen, self@.tiling.tiles.len() as int, i as int),
                    self@.gap,
                ));
                return false;
            }
            i = i + 1;
        }
        true
    }

    /// Return the managed windows in focus order.
    pub fn get_windows(&self) -> (windows: Vec<Window>)
        ensures
            windows@ == self@.tiling.windows,
    {
        self.tiling_wm.get_windows()
    }

    /// Tell whether `window` is managed: whether `get_windows` lists it.
    pub fn is_managed(&self, window: Window) -> (managed: bool)
        ensures
            managed == self@.tiling.is_managed(window),
            managed == self@.tiling.windows.contains(window),
    {
        self.tiling_wm.is_managed(window)
    }

    /// Return the focused window, if there is one.
    pub fn get_focused_window(&self) -> (focused: Option<Window>)
        ensures
            focused == self@.tiling.focused(),
    {
        self.tiling_wm.get_focused_window()
    }

    /// Add a window and focus it, as the tiling window manager does.
    pub fn add_window(&mut self, window_with_info: WindowWithInfo) -> (res: Result<(), WMError>)
        requires
            old(self)@.wf(),
        ensures
            final(self)@.wf(),
            final(self)@.gap == old(self)@.gap,
            match res {
                Ok(_) => {
                    &&& !old(self)@.tiling.is_managed(window_with_info.window)
                    &&& final(self)@.tiling == old(self)@.tiling.add_window(window_with_info)
                    &&& final(self)@.tiling.is_managed(window_with_info.window)
                    &&& final(self)@.tiling.focused() == Some(window_with_info.window)
                },
                Err(e) => {
                    &&& old(self)@.tiling.is_managed(window_with_info.window)
                    &&& e == WMError::AlreadyManagedWindow(window_with_info.window)
                    &&& final(self)@ == old(self)@
                },
            },
    {
        self.tiling_wm.add_window(window_with_info)
    }

    /// Remove a window, as the tiling window manager does.
    pub fn remove_window(&mut self, window: Window) -> (res: Result<(), WMError>)
        requires
            old(self)@.wf(),
        ensures
            final(self)@.wf(),
            final(self)@.gap == old(self)@.gap,
            match res {
                Ok(_) => {
                    &&& old(self)@.tiling.is_managed(window)
                    &&& final(self)@.tiling == old(self)@.tiling.remove_window(window)
                    &&& !final(self)@.tiling.is_managed(window)
                },
                Err(e) => {
                    &&& !old(self)@.tiling.is_managed(window)
                    &&& e == WMError::UnknownWindow(window)
                    &&& final(self)@ == old(self)@
                },
            },
    {
        self.tiling_wm.remove_window(window)
    }

    /// Return the layout of the tiling window manager with every tile inset
    /// by the gap: moved right and down by the gap, and shrunk by twice the
    /// gap. The gap has to fit into every tile.
    pub fn get_window_layout(&self) -> (layout: WindowLayout)
        requires
            self@.wf(),
            self@.tiling.layout_fits(),
            self@.gap_fits(),
        ensures
            layout.focused_window == self@.tiling.focused(),
            layout.windows@ == self@.layout_windows(),
            layout.shows_each_once(),
            layout.shows_focus(),
            forall|w: Window| #[trigger] layout.shows(w) <==> self@.tiling.is_managed(w),
    {
        proof {
            self@.lemma_layout_lists(0);
            assert forall|w: Window| #[trigger]
                lists(self@.layout_windows(), w) <==> self@.tiling.is_managed(w) by {
                self@.lemma_layout_lists(w);
            }
            match self@.tiling.focused() {
                Some(f) => {
                    self@.lemma_layout_lists(f);
                },
                None => {},
            }
        }
        let mut layout = self.tiling_wm.get_window_layout();
        let n = layout.windows.len();
        let mut i: usize = 0;
        while i < n
            invariant
                i <= n,
                n == self@.tiling.tiles.len(),
                layout.windows@.len() == n,
                layout.focused_window == self@.tiling.focused(),
                self@.gap_fits(),
                forall|k: int|
                    0 <= k < i ==> layout.windows@[k] == self@.layout_windows()[k],
                forall|k: int|
                    i <= k < n ==> layout.windows@[k] == self@.tiling.layout_windows()[k],
            decreases n - i,
        {
            let (window, geometry) = layout.windows[i];
            assert(geometry == tile_geometry(
                self@.tiling.screen,
                self@.tiling.tiles.len() as int,
                i as int,
            ));
            let gap = self.gap;
            let shifted = Geometry {
                x: geometry.x + gap as i32,
                y: geometry.y + gap as i32,
                width: geometry.width - 2 * gap,
                height: geometry.height - 2 * gap,
            };
            layout.windows.set(i, (window, shifted));
            i = i + 1;
        }
        assert(layout.windows@ =~= self@.layout_windows());
        layout
    }

    /// Focus the given window, or take the focus away when given `None`.
    pub fn focus_window(&mut self, window: Option<Window>) -> (res: Result<(), WMError>)
        requires
            old(self)@.wf(),
        ensures
            final(self)@.wf(),
            final(self)@.gap == old(self)@.gap,
            match window {
                None => res.is_ok() && final(self)@.tiling == old(self)@.tiling.unfocus(),
                Some(w) => match res {
                    Ok(_) => {
                        &&& old(self)@.tiling.is_managed(w)
                        &&& final(self)@.tiling == old(self)@.tiling.focus(w)
                    },
                    Err(e) => {
                        &&& !old(self)@.tiling.is_managed(w)
                        &&& e == WMError::UnknownWindow(w)
                        &&& final(self)@ == old(self)@
                    },
                },
            },
            res.is_ok() ==> final(self)@.tiling.focused() == window,
    {
        self.tiling_wm.focus_window(window)
    }

    /// Focus the previous or the next window of the focus order.
    pub fn cycle_focus(&mut self, dir: PrevOrNext)
        requires
            old(self)@.wf(),
        ensures
            final(self)@.wf(),
            final(self)@.gap == old(self)@.gap,
            final(self)@.tiling == old(self)@.tiling.cycle_focus(dir),
    {
        self.tiling_wm.cycle_focus(dir)
    }

    /// Return what the tiling window manager knows about a window: for a
    /// tile its place on the screen without the gap.
    pub fn get_window_info(&self, window: Window) -> (res: Result<WindowWithInfo, WMError>)
        requires
            self@.wf(),
            self@.tiling.tiles.contains(window) ==> self@.tiling.layout_fits(),
        ensures
            match res {
                Ok(info) => self@.tiling.is_managed(window) && info == self@.tiling.window_info(
                    window,
                ),
                Err(e) => !self@.tiling.is_managed(window) && e == WMError::UnknownWindow(window),
            },
    {
        self.tiling_wm.get_window_info(window)
    }

    /// Return the screen.
    pub fn get_screen(&self) -> (screen: Screen)
        ensures
            screen == self@.tiling.screen,
    {
        self.tiling_wm.get_screen()
    }

    /// Take note of a new screen.
    pub fn resize_screen(&mut self, screen: Screen)
        ensures
            final(self)@.tiling == old(self)@.tiling.resize_screen(screen),
            final(self)@.gap == old(self)@.gap,
            old(self)@.wf() ==> final(self)@.wf(),
    {
        self.tiling_wm.resize_screen(screen)
    }

    /// Return the window in the master tile, if there is a tile.
    pub fn get_master_window(&self) -> (master: Option<Window>)
        ensures
            master == self@.tiling.master(),
    {
        self.tiling_wm.get_master_window()
    }

    /// Exchange the given window with the master window and focus it.
    pub fn swap_with_master(&mut self, window: Window) -> (res: Result<(), WMError>)
        requires
            old(self)@.wf(),
        ensures
            final(self)@.wf(),
            final(self)@.gap == old(self)@.gap,
            match res {
                Ok(_) => {
                    &&& old(self)@.tiling.is_managed(window)
                    &&& final(self)@.tiling == old(self)@.tiling.swap_with_master(window)
                    &&& old(self)@.tiling.tiles.contains(window) ==> final(self)@.tiling.master()
                        == Some(window) && final(self)@.tiling.focused() == Some(window)
                },
                Err(e) => {
                    &&& !old(self)@.tiling.is_managed(window)
                    &&& e == WMError::UnknownWindow(window)
                    &&& final(self)@ == old(self)@
                },
            },
    {
        self.tiling_wm.swap_with_master(window)
    }

    /// Exchange the tile of the focused window with the previous or the
    /// next tile.
    pub fn swap_windows(&mut self, dir: PrevOrNext)
        requires
            old(self)@.wf(),
        ensures
            final(self)@.wf(),
            final(self)@.gap == old(self)@.gap,
            final(self)@.tiling == old(self)@.tiling.swap_windows(dir),
            final(self)@.tiling.focused() == old(self)@.tiling.focused(),
    {
        self.tiling_wm.swap_windows(dir)
    }

    /// Return the size of the gap.
    pub fn get_gap(&self) -> (gap: GapSize)
        ensures
            gap == self@.gap,
    {
        self.gap
    }

    /// Set the size of the gap.
    pub fn set_gap(&mut self, gapsize: GapSize)
        ensures
            final(self)@.gap == gapsize,
            final(self)@.tiling == old(self)@.tiling,
    {
        self.gap = gapsize;
    }
}

impl WindowManager for GapsWM {
    type Error = WMError;

    open spec fn wf(&self) -> bool {
        self@.wf()
    }

    open spec fn managed(&self) -> Seq<Window> {
        self@.tiling.windows
    }

    open spec fn focus(&self) -> Option<Window> {
        self@.tiling.focused()
    }

    open spec fn screen(&self) -> Screen {
        self@.tiling.screen
    }

    open spec fn lays_out(&self) -> bool {
        self@.tiling.layout_fits() && self@.gap_fits()
    }

    open spec fn reach(&self) -> Seq<Window> {
        self@.tiling.windows
    }

    open spec fn tells(&self, window: Window) -> bool {
        self@.tiling.tiles.contains(window) ==> self@.tiling.layout_fits()
    }

    proof fn lemma_managed(&self) {
        if self@.tiling.focused().is_some() {
            assert(self@.tiling.windows[self@.tiling.windows.len() - 1] == self@.tiling.windows.last());
        }
    }

    proof fn lemma_tells(&self, window: Window) {
    }

    fn new(screen: Screen) -> (wm: Self)
        ensures
            wm@ == GapsState::start(screen),
            wm@.wf(),
    {
        GapsWM::new(screen)
    }

    fn is_valid(&self) -> (valid: bool)
        ensures
            valid == self@.wf(),
    {
        GapsWM::is_valid(self)
    }

    fn can_lay_out(&self) -> (fits: bool)
        ensures
            fits == (self@.tiling.layout_fits() && self@.gap_fits()),
    {
        GapsWM::can_lay_out(self)
    }

    fn get_window_layout(&self) -> (layout: WindowLayout)
        ensures
            layout.focused_window == self@.tiling.focused(),
            layout.windows@ == self@.layout_windows(),
            layout.shows_each_once(),
            layout.shows_focus(),
            forall|w: Window| #[trigger] layout.shows(w) <==> self@.tiling.is_managed(w),
    {
        GapsWM::get_window_layout(self)
    }

    fn is_managed(&self, window: Window) -> (managed: bool)
        ensures
            managed == self@.tiling.is_managed(window),
            managed == self@.tiling.windows.contains(window),
    {
        GapsWM::is_managed(self, window)
    }

    fn get_windows(&self) -> (windows: Vec<Window>)
        ensures
            windows@ == self@.tiling.windows,
    {
        GapsWM::get_windows(self)
    }

    fn get_focused_window(&self) -> (focused: Option<Window>)
        ensures
            focused == self@.tiling.focused(),
    {
        GapsWM::get_focused_window(self)
    }

    fn add_window(&mut self, window_with_info: WindowWithInfo) -> (res: Result<(), WMError>)
        ensures
            final(self)@.wf(),
            final(self)@.gap == old(self)@.gap,
            match res {
                Ok(_) => {
                    &&& !old(self)@.tiling.is_managed(window_with_info.window)
                    &&& final(self)@.tiling == old(self)@.tiling.add_window(window_with_info)
                    &&& final(self)@.tiling.is_managed(window_with_info.window)
                    &&& final(self)@.tiling.focused() == Some(window_with_info.window)
                },
                Err(e) => {
                    &&& old(self)@.tiling.is_managed(window_with_info.window)
                    &&& e == WMError::AlreadyManagedWindow(window_with_info.window)
                    &&& final(self)@ == old(self)@
                },
            },
    {
        proof {
            if !self@.tiling.is_managed(window_with_info.window) {
                self@.tiling.lemma_add_window(window_with_info);
            }
        }
        GapsWM::add_window(self, window_with_info)
    }

    fn remove_window(&mut self, window: Window) -> (res: Result<(), WMError>)
        ensures
            final(self)@.wf(),
            final(self)@.gap == old(self)@.gap,
            match res {
                Ok(_) => {
                    &&& old(self)@.tiling.is_managed(window)
                    &&& final(self)@.tiling == old(self)@.tiling.remove_window(window)
                    &&& !final(self)@.tiling.is_managed(window)
                },
                Err(e) => {
                    &&& !old(self)@.tiling.is_managed(window)
                    &&& e == WMError::UnknownWindow(window)
                    &&& final(self)@ == old(self)@
                },
            },
    {
        proof {
            self@.tiling.lemma_remove_window(window);
        }
        GapsWM::remove_window(self, window)
    }

    fn focus_window(&mut self, window: Option<Window>) -> (res: Result<(), WMError>)
        ensures
            final(self)@.wf(),
            final(self)@.gap == old(self)@.gap,
            match window {
                None => res.is_ok() && final(self)@.tiling == old(self)@.tiling.unfocus(),
                Some(w) => match res {
                    Ok(_) => {
                        &&& old(self)@.tiling.is_managed(w)
                        &&& final(self)@.tiling == old(self)@.tiling.focus(w)
                    },
                    Err(e) => {
                        &&& !old(self)@.tiling.is_managed(w)
                        &&& e == WMError::UnknownWindow(w)
                        &&& final(self)@ == old(self)@
                    },
                },
            },
            res.is_ok() ==> final(self)@.tiling.focused() == window,
    {
        proof {
            match window {
                Some(w) => {
                    if self@.tiling.is_managed(w) {
                        self@.tiling.lemma_focus(w);
                    }
                },
                None => {},
            }
        }
        GapsWM::focus_window(self, window)
    }

    fn cycle_focus(&mut self, dir: PrevOrNext)
        ensures
            final(self)@.wf(),
            final(self)@.gap == old(self)@.gap,
            final(self)@.tiling == old(self)@.tiling.cycle_focus(dir),
    {
        proof {
            self@.tiling.lemma_cycle_focus(dir);
        }
        GapsWM::cycle_focus(self, dir)
    }

    fn get_window_info(&self, window: Window) -> (res: Result<WindowWithInfo, WMError>)
        ensures
            match res {
                Ok(info) => self@.tiling.is_managed(window) && info == self@.tiling.window_info(
                    window,
                ),
                Err(e) => !self@.tiling.is_managed(window) && e == WMError::UnknownWindow(window),
            },
    {
        proof {
            assert(self@.tiling.windows.contains(window) ==> self@.tiling.info.contains_key(window));
        }
        GapsWM::get_window_info(self, window)
    }

    fn get_screen(&self) -> (screen: Screen)
        ensures
            screen == self@.tiling.screen,
    {
        GapsWM::get_screen(self)
    }

    fn resize_screen(&mut self, screen: Screen)
        ensures
            final(self)@.tiling == old(self)@.tiling.resize_screen(screen),
            final(self)@.gap == old(self)@.gap,
            old(self)@.wf() ==> final(self)@.wf(),
    {
        GapsWM::resize_screen(self, screen)
    }
}

impl TilingSupport for GapsWM {
    open spec fn master(&self) -> Option<Window> {
        self@.tiling.master()
    }

    fn get_master_window(&self) -> (master: Option<Window>)
        ensures
            master == self@.tiling.master(),
    {
        proof {
            if self@.tiling.tiles.len() > 0 {
                assert(self@.tiling.tiles.contains(self@.tiling.tiles[0]));
            }
        }
        GapsWM::get_master_window(self)
    }

    fn swap_with_master(&mut self, window: Window) -> (res: Result<(), WMError>)
        ensures
            final(self)@.wf(),
            final(self)@.gap == old(self)@.gap,
            match res {
                Ok(_) => {
                    &&& old(self)@.tiling.is_managed(window)
                    &&& final(self)@.tiling == old(self)@.tiling.swap_with_master(window)
                    &&& old(self)@.tiling.tiles.contains(window) ==> final(self)@.tiling.master()
                        == Some(window) && final(self)@.tiling.focused() == Some(window)
                },
                Err(e) => {
                    &&& !old(self)@.tiling.is_managed(window)
                    &&& e == WMError::UnknownWindow(window)
                    &&& final(self)@ == old(self)@
                },
            },
    {
        proof {
            if self@.tiling.is_managed(window) {
                self@.tiling.lemma_swap_with_master(window);
            }
        }
        GapsWM::swap_with_master(self, window)
    }

    fn swap_windows(&mut self, dir: PrevOrNext)
        ensures
            final(self)@.wf(),
            final(self)@.gap == old(self)@.gap,
            final(self)@.tiling == old(self)@.tiling.swap_windows(dir),
            final(self)@.tiling.focused() == old(self)@.tiling.focused(),
    {
        proof {
            self@.tiling.lemma_swap_windows(dir);
        }
        GapsWM::swap_windows(self, dir)
    }
}

impl GapSupport for GapsWM {
    open spec fn gap(&self) -> GapSize {
        self@.gap
    }

    fn get_gap(&self) -> (gap: GapSize)
        ensures
            gap == self@.gap,
    {
        GapsWM::get_gap(self)
    }

    fn set_gap(&mut self, gapsize: GapSize)
        ensures
            final(self)@.gap == gapsize,
            final(self)@.tiling == old(self)@.tiling,
    {
        GapsWM::set_gap(self, gapsize)
    }
}

} // verus!
