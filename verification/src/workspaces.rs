//! Several workspaces, each with a window manager of its own.
//!
//! One workspace is the current one: its layout is on the screen and it
//! takes the new windows. A window belongs to one workspace only. What is
//! asked about a window, or of it, goes to the workspace that it belongs to.

use vstd::prelude::*;
use crate::fullscreen::{FullState, FullWM};
use crate::order::{
    joined, lemma_joined, lemma_joined_ends, lemma_joined_no_duplicates, lemma_joined_step,
};
use crate::types::{
    Geometry, MAX_WORKSPACE_INDEX, PrevOrNext, Screen, Window, WindowLayout, WindowWithInfo,
    WorkspaceIndex,
};
use crate::wm::{
    FloatSupport, FullscreenSupport, MinimiseSupport, MultiWorkspaceSupport, TilingSupport,
    WindowManager,
};
use crate::wm_error::WMError;

verus! {

/// The state of a window manager with several workspaces.
pub struct MultiState {
    /// The state of each workspace.
    pub workspaces: Seq<FullState>,
    /// The index of the current workspace.
    pub index: WorkspaceIndex,
}

impl MultiState {
    /// The state of a window manager without windows, on its first
    /// workspace.
    pub open spec fn start(screen: Screen) -> MultiState {
        MultiState {
            workspaces: Seq::new(
                (MAX_WORKSPACE_INDEX + 1) as nat,
                |i: int| FullState::start(screen),
            ),
            index: 0,
        }
    }

    /// The state is well-formed: there are `MAX_WORKSPACE_INDEX + 1`
    /// well-formed workspaces for one and the same screen, the current one
    /// is among them, only the current one may have a fullscreen window,
    /// and no window belongs to two of them.
    pub open spec fn wf(self) -> bool {
        &&& self.workspaces.len() == MAX_WORKSPACE_INDEX + 1
        &&& self.index <= MAX_WORKSPACE_INDEX
        &&& forall|i: int| 0 <= i < self.workspaces.len() ==> (#[trigger] self.workspaces[i]).wf()
        &&& forall|i: int|
            0 <= i < self.workspaces.len() && i != self.index ==> (
            #[trigger] self.workspaces[i]).fullscreen.is_none()
        &&& forall|i: int|
            0 <= i < self.workspaces.len() ==> (#[trigger] self.workspaces[i]).screen()
                == self.workspaces[0].screen()
        &&& forall|i: int, j: int, w: Window|
            0 <= i < self.workspaces.len() && 0 <= j < self.workspaces.len() && i != j
                && #[trigger] self.workspaces[i].minimise.windows().contains(w)
                ==> !#[trigger] self.workspaces[j].minimise.windows().contains(w)
    }

    /// The current workspace.
    pub open spec fn current(self) -> FullState {
        self.workspaces[self.index as int]
    }

    /// Whether `w` is managed: whether it belongs to one of the workspaces.
    pub open spec fn is_managed(self, w: Window) -> bool {
        exists|i: int|
            0 <= i < self.workspaces.len() && (#[trigger] self.workspaces[i]).minimise.windows().contains(
                w,
            )
    }

    /// The index of the workspace that the managed window `w` belongs to.
    pub open spec fn owner(self, w: Window) -> int {
        choose|i: int|
            0 <= i < self.workspaces.len() && (#[trigger] self.workspaces[i]).minimise.windows().contains(
                w,
            )
    }

    /// The managed windows: those of the first workspace in their focus
    /// order, then those of the second one, and so on.
    pub open spec fn windows(self) -> Seq<Window> {
        joined(Seq::new(self.workspaces.len(), |i: int| self.workspaces[i].minimise.windows()))
    }

    /// The floating windows that the layouts of the workspaces show, first
    /// workspace first.
    pub open spec fn floating_windows(self) -> Seq<Window> {
        joined(Seq::new(self.workspaces.len(), |i: int| self.workspaces[i].floating_windows()))
    }

    /// The minimised windows of the workspaces, first workspace first.
    pub open spec fn minimised_windows(self) -> Seq<Window> {
        joined(Seq::new(self.workspaces.len(), |i: int| self.workspaces[i].minimise.minimised))
    }

    /// The state with another state of the workspace `i`.
    pub open spec fn with_workspace(self, i: int, workspace: FullState) -> MultiState {
        MultiState { workspaces: self.workspaces.update(i, workspace), ..self }
    }

    /// The state after the unmanaged window of `info` has been added to the
    /// current workspace.
    pub open spec fn add_window(self, info: WindowWithInfo) -> MultiState {
        self.with_workspace(self.index as int, self.current().add_window(info))
    }

    /// The state after the managed window `w` has been removed from its
    /// workspace.
    pub open spec fn remove_window(self, w: Window) -> MultiState {
        self.with_workspace(self.owner(w), self.workspaces[self.owner(w)].remove_window(w))
    }

    /// The state after the workspace `i` has become the current one. The
    /// workspace that is left keeps no window fullscreen.
    pub open spec fn switch_workspace(self, i: WorkspaceIndex) -> MultiState {
        if i == self.index {
            self
        } else {
            MultiState {
                workspaces: self.workspaces.update(
                    self.index as int,
                    FullState { fullscreen: None, ..self.current() },
                ),
                index: i,
            }
        }
    }

    /// The state after the focus has gone to the managed window `w`: its
    /// workspace focuses it and becomes the current one.
    pub open spec fn focus(self, w: Window) -> MultiState {
        let o = self.owner(w);
        self.with_workspace(o, self.workspaces[o].focus(w)).switch_workspace(o as usize)
    }

    /// The state after the focus has been taken away in the current
    /// workspace.
    pub open spec fn unfocus(self) -> MultiState {
        self.with_workspace(self.index as int, self.current().unfocus())
    }

    /// The state after the focus has moved in the current workspace.
    pub open spec fn cycle_focus(self, dir: PrevOrNext) -> MultiState {
        self.with_workspace(self.index as int, self.current().cycle_focus(dir))
    }

    /// The state after `w` has been exchanged with the master window of the
    /// current workspace.
    pub open spec fn swap_with_master(self, w: Window) -> MultiState {
        self.with_workspace(self.index as int, self.current().swap_with_master(w))
    }

    /// The state after the focused tile of the current workspace has been
    /// exchanged with its neighbour.
    pub open spec fn swap_windows(self, dir: PrevOrNext) -> MultiState {
        self.with_workspace(self.index as int, self.current().swap_windows(dir))
    }

    /// The state after the managed window `w` has changed between floating
    /// and tiling in its workspace.
    pub open spec fn toggle_floating(self, w: Window) -> MultiState {
        self.with_workspace(self.owner(w), self.workspaces[self.owner(w)].toggle_floating(w))
    }

    /// The state after the managed window `w` has been given the geometry
    /// `g` in its workspace.
    pub open spec fn set_window_geometry(self, w: Window, g: Geometry) -> MultiState {
        self.with_workspace(self.owner(w), self.workspaces[self.owner(w)].set_window_geometry(w, g))
    }

    /// The state after the managed window `w` has been minimised, or has
    /// come back if it was minimised. The workspace of a window that comes
    /// back becomes the current one.
    pub open spec fn toggle_minimised(self, w: Window) -> MultiState {
        let o = self.owner(w);
        let s = if self.workspaces[o].minimise.is_minimised(w) {
            self.switch_workspace(o as usize)
        } else {
            self
        };
        s.with_workspace(o, s.workspaces[o].toggle_minimised(w))
    }

    /// The state after the managed window `w` has changed between
    /// fullscreen and not. Its workspace becomes the current one.
    pub open spec fn toggle_fullscreen(self, w: Window) -> MultiState {
        let o = self.owner(w);
        let s = self.switch_workspace(o as usize);
        s.with_workspace(o, s.workspaces[o].toggle_fullscreen(w))
    }

    /// The state after the screen has changed: every workspace takes note
    /// of it.
    pub open spec fn resize_screen(self, screen: Screen) -> MultiState {
        MultiState {
            workspaces: Seq::new(
                self.workspaces.len(),
                |i: int| self.workspaces[i].resize_screen(screen),
            ),
            ..self
        }
    }

    /// A window is managed exactly if `windows` lists it, and the workspace
    /// that it belongs to is the only one that manages it.
    pub proof fn lemma_managed(self, w: Window)
        requires
            self.wf(),
        ensures
            self.is_managed(w) <==> self.windows().contains(w),
            self.is_managed(w) ==> 0 <= self.owner(w) < self.workspaces.len()
                && self.workspaces[self.owner(w)].is_managed(w),
            forall|i: int|
                0 <= i < self.workspaces.len() && (#[trigger] self.workspaces[i]).is_managed(w)
                    ==> self.is_managed(w) && self.owner(w) == i,
    {
        let parts = Seq::new(self.workspaces.len(), |i: int| self.workspaces[i].minimise.windows());
        lemma_joined(parts);
        if self.is_managed(w) {
            let i = self.owner(w);
            assert(parts[i].contains(w));
        }
        if self.windows().contains(w) {
            let i = choose|i: int| 0 <= i < parts.len() && (#[trigger] parts[i]).contains(w);
            assert(self.workspaces[i].minimise.windows().contains(w));
        }
        assert forall|i: int|
            0 <= i < self.workspaces.len() && (#[trigger] self.workspaces[i]).is_managed(
                w,
            ) implies self.is_managed(w) && self.owner(w) == i by {
            assert(self.workspaces[i].minimise.windows().contains(w));
            let o = self.owner(w);
            assert(self.workspaces[o].minimise.windows().contains(w));
        }
    }

    /// A workspace may change as long as it stays well-formed and takes no
    /// window that is managed already.
    pub proof fn lemma_with_workspace(self, i: int, workspace: FullState)
        requires
            self.wf(),
            0 <= i < self.workspaces.len(),
            workspace.wf(),
            workspace.screen() == self.workspaces[i].screen(),
            i != self.index ==> workspace.fullscreen.is_none(),
            forall|x: Window| #[trigger]
                workspace.minimise.windows().contains(x)
                    ==> self.workspaces[i].minimise.windows().contains(x) || !self.is_managed(x),
        ensures
            self.with_workspace(i, workspace).wf(),
            forall|x: Window|
                self.with_workspace(i, workspace).is_managed(x) ==> self.is_managed(x)
                    || workspace.minimise.windows().contains(x),
    {
        let t = self.with_workspace(i, workspace);
        assert forall|a: int, b: int, w: Window|
            0 <= a < t.workspaces.len() && 0 <= b < t.workspaces.len() && a != b
                && #[trigger] t.workspaces[a].minimise.windows().contains(
                w,
            ) implies !#[trigger] t.workspaces[b].minimise.windows().contains(w) by {
            if a == i {
                if self.workspaces[b].minimise.windows().contains(w) {
                    assert(self.is_managed(w));
                    assert(self.workspaces[i].minimise.windows().contains(w));
                }
            } else if b == i {
                if workspace.minimise.windows().contains(w) {
                    assert(self.workspaces[a].minimise.windows().contains(w));
                    assert(self.is_managed(w));
                    assert(self.workspaces[i].minimise.windows().contains(w));
                }
            } else {
                assert(self.workspaces[a].minimise.windows().contains(w));
            }
        }
        assert forall|x: Window| t.is_managed(x) implies self.is_managed(x)
            || workspace.minimise.windows().contains(x) by {
            let k = choose|k: int|
                0 <= k < t.workspaces.len() && (#[trigger] t.workspaces[k]).minimise.windows().contains(
                    x,
                );
            if k != i {
                assert(self.workspaces[k].minimise.windows().contains(x));
            }
        }
    }

    /// Switching to a valid workspace keeps the state well-formed and every
    /// window in its workspace.
    pub proof fn lemma_switch_workspace(self, i: WorkspaceIndex)
        requires
            self.wf(),
            i <= MAX_WORKSPACE_INDEX,
        ensures
            self.switch_workspace(i).wf(),
            self.switch_workspace(i).index == i,
            self.switch_workspace(i).switch_workspace(self.index).index == self.index,
            forall|k: int|
                0 <= k < self.workspaces.len() ==> (#[trigger] self.switch_workspace(
                    i,
                ).workspaces[k]).minimise == self.workspaces[k].minimise,
            forall|k: int|
                0 <= k < self.workspaces.len() && k != self.index ==> #[trigger] self.switch_workspace(
                    i,
                ).workspaces[k] == self.workspaces[k],
            self.switch_workspace(i).windows() == self.windows(),
            self.switch_workspace(i).minimised_windows() == self.minimised_windows(),
            forall|w: Window| self.switch_workspace(i).is_managed(w) <==> self.is_managed(w),
            forall|w: Window|
                self.is_managed(w) ==> self.switch_workspace(i).owner(w) == self.owner(w),
    {
        let t = self.switch_workspace(i);
        assert(Seq::new(t.workspaces.len(), |k: int| t.workspaces[k].minimise.windows())
            =~= Seq::new(self.workspaces.len(), |k: int| self.workspaces[k].minimise.windows()));
        assert(Seq::new(t.workspaces.len(), |k: int| t.workspaces[k].minimise.minimised)
            =~= Seq::new(self.workspaces.len(), |k: int| self.workspaces[k].minimise.minimised));
        if i != self.index {
            let left = FullState { fullscreen: None, ..self.current() };
            assert(self.current().wf());
            self.lemma_with_workspace(self.index as int, left);
            assert(t.workspaces =~= self.with_workspace(self.index as int, left).workspaces);
        }
        assert forall|w: Window| t.is_managed(w) <==> self.is_managed(w) by {
            if t.is_managed(w) {
                let k = choose|k: int|
                    0 <= k < t.workspaces.len() && (#[trigger] t.workspaces[k]).minimise.windows().contains(
                        w,
                    );
                assert(self.workspaces[k].minimise.windows().contains(w));
            }
            if self.is_managed(w) {
                let k = self.owner(w);
                assert(t.workspaces[k].minimise.windows().contains(w));
            }
        }
        assert forall|w: Window| self.is_managed(w) implies t.owner(w) == self.owner(w) by {
            self.lemma_managed(w);
            t.lemma_managed(w);
            let k = self.owner(w);
            assert(t.workspaces[k].minimise == self.workspaces[k].minimise);
            assert(t.workspaces[k].is_managed(w));
        }
    }
}

impl MultiState {
    /// No window is listed twice.
    pub proof fn lemma_no_duplicates(self)
        requires
            self.wf(),
        ensures
            self.windows().no_duplicates(),
    {
        let parts = Seq::new(self.workspaces.len(), |i: int| self.workspaces[i].minimise.windows());
        assert forall|i: int| 0 <= i < parts.len() implies (#[trigger] parts[i]).no_duplicates() by {
            assert(self.workspaces[i].wf());
        }
        assert forall|i: int, j: int, x: Window|
            0 <= i < parts.len() && 0 <= j < parts.len() && i != j && #[trigger] parts[i].contains(x)
                implies !#[trigger] parts[j].contains(x) by {
            assert(self.workspaces[i].minimise.windows().contains(x));
        }
        lemma_joined_no_duplicates(parts);
    }

    /// The windows that are managed after a workspace has changed: those of
    /// the changed workspace, and those of the other workspaces.
    pub proof fn lemma_windows_after(self, i: int, workspace: FullState)
        requires
            self.wf(),
            0 <= i < self.workspaces.len(),
            workspace.wf(),
            workspace.screen() == self.workspaces[i].screen(),
            i != self.index ==> workspace.fullscreen.is_none(),
            forall|x: Window| #[trigger]
                workspace.minimise.windows().contains(x)
                    ==> self.workspaces[i].minimise.windows().contains(x) || !self.is_managed(x),
        ensures
            self.with_workspace(i, workspace).wf(),
            forall|x: Window| #[trigger]
                self.with_workspace(i, workspace).windows().contains(x)
                    <==> workspace.minimise.windows().contains(x) || (self.windows().contains(x)
                    && !self.workspaces[i].minimise.windows().contains(x)),
    {
        let t = self.with_workspace(i, workspace);
        self.lemma_with_workspace(i, workspace);
        assert forall|x: Window| #[trigger]
            t.windows().contains(x) <==> workspace.minimise.windows().contains(x) || (
            self.windows().contains(x) && !self.workspaces[i].minimise.windows().contains(x)) by {
            self.lemma_managed(x);
            t.lemma_managed(x);
            if t.is_managed(x) {
                let k = t.owner(x);
                if k != i {
                    assert(self.workspaces[k].minimise.windows().contains(x));
                    assert(self.workspaces[k].is_managed(x));
                }
            }
            if workspace.minimise.windows().contains(x) {
                assert(t.workspaces[i].is_managed(x));
            }
            if self.is_managed(x) && !self.workspaces[i].minimise.windows().contains(x) {
                let k = self.owner(x);
                assert(t.workspaces[k].minimise.windows().contains(x));
                assert(t.workspaces[k].is_managed(x));
            }
        }
    }

    /// Every window of a workspace is listed among the managed windows.
    pub proof fn lemma_listed(self)
        requires
            self.wf(),
        ensures
            forall|i: int, x: Window|
                0 <= i < self.workspaces.len() && #[trigger] self.workspaces[i].minimise.windows().contains(
                    x,
                ) ==> self.windows().contains(x),
    {
        assert forall|i: int, x: Window|
            0 <= i < self.workspaces.len() && #[trigger] self.workspaces[i].minimise.windows().contains(
                x,
            ) implies self.windows().contains(x) by {
            self.lemma_managed(x);
            assert(self.workspaces[i].is_managed(x));
        }
    }

    /// A workspace that changes without taking or losing a window leaves
    /// the managed windows as they are.
    pub proof fn lemma_same_windows(self, i: int, workspace: FullState)
        requires
            self.wf(),
            0 <= i < self.workspaces.len(),
            workspace.wf(),
            workspace.screen() == self.workspaces[i].screen(),
            i != self.index ==> workspace.fullscreen.is_none(),
            forall|x: Window| #[trigger]
                workspace.minimise.windows().contains(x)
                    <==> self.workspaces[i].minimise.windows().contains(x),
        ensures
            self.with_workspace(i, workspace).wf(),
            forall|x: Window| #[trigger]
                self.with_workspace(i, workspace).windows().contains(x) <==> self.windows().contains(
                    x,
                ),
            forall|x: Window|
                self.is_managed(x) ==> self.with_workspace(i, workspace).owner(x) == self.owner(x),
    {
        let t = self.with_workspace(i, workspace);
        self.lemma_windows_after(i, workspace);
        self.lemma_listed();
        assert forall|x: Window| self.is_managed(x) implies t.owner(x) == self.owner(x) by {
            self.lemma_managed(x);
            t.lemma_managed(x);
            let k = self.owner(x);
            assert(t.workspaces[k].minimise.windows().contains(x));
            assert(t.workspaces[k].is_managed(x));
        }
    }

    /// A window is listed as floating exactly if the layout of the
    /// workspace that it belongs to shows it floating.
    pub proof fn lemma_floating(self, w: Window)
        requires
            self.wf(),
        ensures
            self.floating_windows().contains(w) <==> self.is_managed(w)
                && self.workspaces[self.owner(w)].floating_windows().contains(w),
    {
        let parts = Seq::new(self.workspaces.len(), |i: int| self.workspaces[i].floating_windows());
        lemma_joined(parts);
        self.lemma_managed(w);
        if self.floating_windows().contains(w) {
            let i = choose|i: int| 0 <= i < parts.len() && (#[trigger] parts[i]).contains(w);
            let workspace = self.workspaces[i];
            assert(workspace.wf());
            assert(workspace.floating_windows().contains(w));
            match workspace.fullscreen {
                Some(f) => {
                    let k = choose|k: int|
                        0 <= k < workspace.floating_windows().len()
                            && workspace.floating_windows()[k] == w;
                    assert(k == 0);
                },
                None => {
                    workspace.minimise.floating.lemma_floating_windows();
                },
            }
            assert(workspace.is_managed(w));
        }
        if self.is_managed(w) && self.workspaces[self.owner(w)].floating_windows().contains(w) {
            assert(parts[self.owner(w)].contains(w));
        }
    }

    /// A window is listed as minimised exactly if it is minimised in the
    /// workspace that it belongs to.
    pub proof fn lemma_minimised(self, w: Window)
        requires
            self.wf(),
        ensures
            self.minimised_windows().contains(w) <==> self.is_managed(w)
                && self.workspaces[self.owner(w)].minimise.is_minimised(w),
    {
        let parts = Seq::new(self.workspaces.len(), |i: int| self.workspaces[i].minimise.minimised);
        lemma_joined(parts);
        self.lemma_managed(w);
        if self.minimised_windows().contains(w) {
            let i = choose|i: int| 0 <= i < parts.len() && (#[trigger] parts[i]).contains(w);
            assert(self.workspaces[i].wf());
            assert(self.workspaces[i].minimise.minimised.contains(w));
            assert(self.workspaces[i].is_managed(w));
        }
        if self.is_managed(w) && self.workspaces[self.owner(w)].minimise.is_minimised(w) {
            assert(parts[self.owner(w)].contains(w));
        }
    }
}

/// A window manager with `MAX_WORKSPACE_INDEX + 1` workspaces.
#[derive(Clone, Debug)]
pub struct MultiWorkspaceWM {
    /// The window manager of each workspace.
    workspaces: Vec<FullWM>,
    /// The index of the current workspace.
    index: WorkspaceIndex,
}

impl View for MultiWorkspaceWM {
    type V = MultiState;

    closed spec fn view(&self) -> MultiState {
        MultiState {
            workspaces: Seq::new(self.workspaces@.len(), |i: int| self.workspaces@[i]@),
            index: self.index,
        }
    }
}

impl MultiWorkspaceWM {
    /// A window manager without windows for the given screen, on its first
    /// workspace.
    pub fn new(screen: Screen) -> (wm: MultiWorkspaceWM)
        ensures
            wm@ == MultiState::start(screen),
            wm@.wf(),
    {
        let mut workspaces: Vec<FullWM> = Vec::new();
        let mut i: usize = 0;
        while i <= MAX_WORKSPACE_INDEX
            invariant
                i <= MAX_WORKSPACE_INDEX + 1,
                workspaces@.len() == i,
                forall|k: int| 0 <= k < i ==> (#[trigger] workspaces@[k])@ == FullState::start(screen),
            decreases MAX_WORKSPACE_INDEX + 1 - i,
        {
            workspaces.push(FullWM::new(screen));
            i = i + 1;
        }
        let wm = MultiWorkspaceWM { workspaces, index: 0 };
        assert(wm@.workspaces =~= MultiState::start(screen).workspaces);
        assert(wm@.wf()) by {
            assert forall|k: int| 0 <= k < wm@.workspaces.len() implies (
            #[trigger] wm@.workspaces[k]).wf() by {
                assert(wm.workspaces@[k]@ == FullState::start(screen));
            }
        }
        wm
    }

    /// Tell whether two workspaces share no window.
    fn shares_no_window(a: &FullWM, b: &FullWM) -> (apart: bool)
        ensures
            apart == forall|w: Window| #[trigger]
                a@.minimise.windows().contains(w) ==> !b@.minimise.windows().contains(w),
    {
        let mut i: usize = 0;
        while i < a.minimise_wm.floating_wm.tiling_wm.windows.len()
            invariant
                i <= a@.minimise.windows().len(),
                forall|k: int|
                    0 <= k < i ==> !b@.minimise.windows().contains(
                        #[trigger] a@.minimise.windows()[k],
                    ),
            decreases a@.minimise.windows().len() - i,
        {
            let window = a.minimise_wm.floating_wm.tiling_wm.windows[i];
            if b.is_managed(window) {
                assert(a@.minimise.windows().contains(window));
                return false;
            }
            i = i + 1;
        }
        assert forall|w: Window| #[trigger]
            a@.minimise.windows().contains(w) implies !b@.minimise.windows().contains(w) by {
            let k = choose|k: int|
                0 <= k < a@.minimise.windows().len() && a@.minimise.windows()[k] == w;
            assert(!b@.minimise.windows().contains(a@.minimise.windows()[k]));
        }
        true
    }

    /// Tell whether the window manager is well-formed. A window manager
    /// that was made by `new` and changed by its operations is; one whose
    /// workspaces were lent out has to be checked.
    pub fn is_valid(&self) -> (valid: bool)
        ensures
            valid == self@.wf(),
    {
        if self.workspaces.len() != MAX_WORKSPACE_INDEX + 1 || self.index > MAX_WORKSPACE_INDEX {
            return false;
        }
        let screen = self.workspaces[0].get_screen();
        let mut i: usize = 0;
        while i < self.workspaces.len()
            invariant
                i <= self@.workspaces.len(),
                screen == self@.workspaces[0].screen(),
                forall|k: int|
                    0 <= k < i ==> {
                        &&& (#[trigger] self@.workspaces[k]).wf()
                        &&& k != self@.index ==> self@.workspaces[k].fullscreen.is_none()
                        &&& self@.workspaces[k].screen() == screen
                    },
            decreases self@.workspaces.len() - i,
        {
            let workspace = &self.workspaces[i];
            assert(workspace@ == self@.workspaces[i as int]);
            if !workspace.is_valid() || (i != self.index && workspace.fullscreen_window.is_some())
                || workspace.get_screen() != screen {
                return false;
            }
            i = i + 1;
        }
        let mut a: usize = 0;
        while a < self.workspaces.len()
            invariant
                a <= self@.workspaces.len(),
                forall|i: int, j: int, w: Window|
                    0 <= i < a && 0 <= j < self@.workspaces.len() && i != j
                        && #[trigger] self@.workspaces[i].minimise.windows().contains(w)
                        ==> !#[trigger] self@.workspaces[j].minimise.windows().contains(w),
            decreases self@.workspaces.len() - a,
        {
            let mut b: usize = 0;
            while b < self.workspaces.len()
                invariant
                    a < self@.workspaces.len(),
                    b <= self@.workspaces.len(),
                    forall|i: int, j: int, w: Window|
                        0 <= i < a && 0 <= j < self@.workspaces.len() && i != j
                            && #[trigger] self@.workspaces[i].minimise.windows().contains(w)
                            ==> !#[trigger] self@.workspaces[j].minimise.windows().contains(w),
                    forall|j: int, w: Window|
                        0 <= j < b && j != a && self@.workspaces[a as int].minimise.windows().contains(
                            w,
                        ) ==> !#[trigger] self@.workspaces[j].minimise.windows().contains(w),
                decreases self@.workspaces.len() - b,
            {
                if a != b {
                    assert(self.workspaces@[a as int]@ == self@.workspaces[a as int]);
                    assert(self.workspaces@[b as int]@ == self@.workspaces[b as int]);
                    if !Self::shares_no_window(&self.workspaces[a], &self.workspaces[b]) {
                        return false;
                    }
                }
                b = b + 1;
            }
            a = a + 1;
        }
        true
    }

    /// Tell whether the layout of the current workspace can be written
    /// down.
    pub fn can_lay_out(&self) -> (fits: bool)
        requires
            self@.wf(),
        ensures
            fits == (self@.current().fullscreen.is_none()
                ==> self@.current().minimise.floating.tiling.layout_fits()),
    {
        self.workspaces[self.index].can_lay_out()
    }

    /// Return the managed windows of all workspaces: those of the first
    /// workspace in their focus order, then those of the second one, and so
    /// on.
    pub fn get_windows(&self) -> (windows: Vec<Window>)
        requires
            self@.wf(),
        ensures
            windows@ == self@.windows(),
    {
        let ghost parts = Seq::new(
            self@.workspaces.len(),
            |i: int| self@.workspaces[i].minimise.windows(),
        );
        let mut windows: Vec<Window> = Vec::new();
        let mut i: usize = 0;
        proof {
            lemma_joined_ends(parts);
        }
        while i < self.workspaces.len()
            invariant
                i <= self.workspaces@.len(),
                parts == Seq::new(
                    self@.workspaces.len(),
                    |i: int| self@.workspaces[i].minimise.windows(),
                ),
                windows@ == joined(parts.take(i as int)),
            decreases self.workspaces@.len() - i,
        {
            let mut part = self.workspaces[i].get_windows();
            proof {
                lemma_joined_step(parts, i as int);
            }
            windows.append(&mut part);
            i = i + 1;
        }
        proof {
            lemma_joined_ends(parts);
        }
        windows
    }

    /// Return the index of the workspace that `window` belongs to, if it is
    /// managed.
    fn find_index(&self, window: Window) -> (found: Option<usize>)
        requires
            self@.wf(),
        ensures
            match found {
                Some(i) => self@.is_managed(window) && i == self@.owner(window) && i
                    <= MAX_WORKSPACE_INDEX,
                None => !self@.is_managed(window),
            },
    {
        proof {
            self@.lemma_managed(window);
        }
        let mut i: usize = 0;
        while i < self.workspaces.len()
            invariant
                i <= self.workspaces@.len(),
                self@.wf(),
                forall|k: int|
                    0 <= k < i ==> !(#[trigger] self@.workspaces[k]).minimise.windows().contains(
                        window,
                    ),
            decreases self.workspaces@.len() - i,
        {
            if self.workspaces[i].is_managed(window) {
                proof {
                    self@.lemma_managed(window);
                    assert(self@.workspaces[i as int].is_managed(window));
                }
                return Some(i);
            }
            i = i + 1;
        }
        None
    }

    /// Tell whether `window` is managed: whether `get_windows` lists it.
    pub fn is_managed(&self, window: Window) -> (managed: bool)
        requires
            self@.wf(),
        ensures
            managed == self@.is_managed(window),
            managed == self@.windows().contains(window),
    {
        proof {
            self@.lemma_managed(window);
        }
        self.find_index(window).is_some()
    }

    /// Return the focused window of the current workspace, if there is one.
    pub fn get_focused_window(&self) -> (focused: Option<Window>)
        requires
            self@.wf(),
        ensures
            focused == self@.current().focused(),
    {
        self.workspaces[self.index].get_focused_window()
    }

    /// Add a window to the current workspace and focus it. A window that
    /// any workspace manages already is refused.
    pub fn add_window(&mut self, window_with_info: WindowWithInfo) -> (res: Result<(), WMError>)
        requires
            old(self)@.wf(),
        ensures
            final(self)@.wf(),
            match res {
                Ok(_) => {
                    &&& !old(self)@.is_managed(window_with_info.window)
                    &&& final(self)@ == old(self)@.add_window(window_with_info)
                    &&& final(self)@.is_managed(window_with_info.window)
                    &&& final(self)@.current().focused() == Some(window_with_info.window)
                },
                Err(e) => {
                    &&& old(self)@.is_managed(window_with_info.window)
                    &&& e == WMError::AlreadyManagedWindow(window_with_info.window)
                    &&& final(self)@ == old(self)@
                },
            },
    {
        if self.find_index(window_with_info.window).is_some() {
            return Err(WMError::AlreadyManagedWindow(window_with_info.window));
        }
        let index = self.index;
        proof {
            self@.lemma_managed(window_with_info.window);
            self@.current().lemma_add_window(window_with_info);
            self@.lemma_with_workspace(index as int, self@.current().add_window(window_with_info));
        }
        let res = self.workspaces[index].add_window(window_with_info);
        proof {
            assert(self@.workspaces =~= old(self)@.add_window(window_with_info).workspaces);
            assert(self@.workspaces[index as int].minimise.windows().contains(
                window_with_info.window,
            ));
        }
        res
    }

    /// Remove a window from the workspace that it belongs to. A window that
    /// is not managed is refused.
    pub fn remove_window(&mut self, window: Window) -> (res: Result<(), WMError>)
        requires
            old(self)@.wf(),
        ensures
            final(self)@.wf(),
            match res {
                Ok(_) => {
                    &&& old(self)@.is_managed(window)
                    &&& final(self)@ == old(self)@.remove_window(window)
                    &&& !final(self)@.is_managed(window)
                },
                Err(e) => {
                    &&& !old(self)@.is_managed(window)
                    &&& e == WMError::UnknownWindow(window)
                    &&& final(self)@ == old(self)@
                },
            },
    {
        match self.find_index(window) {
            None => Err(WMError::UnknownWindow(window)),
            Some(i) => {
                proof {
                    self@.lemma_managed(window);
                    self@.workspaces[i as int].lemma_remove_window(window);
                    self@.lemma_with_workspace(
                        i as int,
                        self@.workspaces[i as int].remove_window(window),
                    );
                }
                let res = self.workspaces[i].remove_window(window);
                proof {
                    assert(self@.workspaces =~= old(self)@.remove_window(window).workspaces);
                    if self@.is_managed(window) {
                        let k = self@.owner(window);
                        if k != i {
                            assert(old(self)@.workspaces[k].minimise.windows().contains(window));
                        }
                    }
                }
                res
            },
        }
    }

    /// Return the layout of the current workspace.
    pub fn get_window_layout(&self) -> (layout: WindowLayout)
        requires
            self@.wf(),
            self@.current().fullscreen.is_none()
                ==> self@.current().minimise.floating.tiling.layout_fits(),
        ensures
            layout.focused_window == self@.current().focused(),
            layout.windows@ == self@.current().layout_windows(),
            layout.shows_each_once(),
            layout.shows_focus(),
            forall|w: Window| #[trigger] layout.shows(w) ==> self@.current().is_managed(w),
    {
        self.workspaces[self.index].get_window_layout()
    }

    /// Focus the given window, or take the focus away in the current
    /// workspace when given `None`. The workspace of the focused window
    /// becomes the current one. A window that is not managed is refused.
    pub fn focus_window(&mut self, window: Option<Window>) -> (res: Result<(), WMError>)
        requires
            old(self)@.wf(),
        ensures
            final(self)@.wf(),
            match window {
                None => res.is_ok() && final(self)@ == old(self)@.unfocus(),
                Some(w) => match res {
                    Ok(_) => {
                        &&& old(self)@.is_managed(w)
                        &&& final(self)@ == old(self)@.focus(w)
                        &&& final(self)@.index == old(self)@.owner(w)
                    },
                    Err(e) => {
                        &&& !old(self)@.is_managed(w)
                        &&& e == WMError::UnknownWindow(w)
                        &&& final(self)@ == old(self)@
                    },
                },
            },
            res.is_ok() ==> final(self)@.current().focused() == window,
    {
        match window {
            None => {
                let index = self.index;
                proof {
                    self@.current().lemma_focus_ops(0, PrevOrNext::Next);
                    self@.lemma_with_workspace(index as int, self@.current().unfocus());
                }
                let res = self.workspaces[index].focus_window(None);
                proof {
                    assert(self@.workspaces =~= old(self)@.unfocus().workspaces);
                }
                res
            },
            Some(w) => {
                match self.find_index(w) {
                    None => Err(WMError::UnknownWindow(w)),
                    Some(i) => {
                        proof {
                            self@.lemma_managed(w);
                            self@.workspaces[i as int].lemma_focus_ops(w, PrevOrNext::Next);
                            self@.lemma_with_workspace(i as int, self@.workspaces[i as int].focus(w));
                            self@.with_workspace(
                                i as int,
                                self@.workspaces[i as int].focus(w),
                            ).lemma_switch_workspace(i);
                        }
                        let _ = self.workspaces[i].focus_window(window);
                        proof {
                            assert(self@.workspaces =~= old(self)@.with_workspace(
                                i as int,
                                old(self)@.workspaces[i as int].focus(w),
                            ).workspaces);
                        }
                        self.switch_to(i);
                        Ok(())
                    },
                }
            },
        }
    }

    /// Make the workspace `index` the current one. The workspace that is
    /// left keeps no window fullscreen.
    fn switch_to(&mut self, index: WorkspaceIndex)
        requires
            old(self)@.wf(),
            index <= MAX_WORKSPACE_INDEX,
        ensures
            final(self)@ == old(self)@.switch_workspace(index),
            final(self)@.wf(),
    {
        proof {
            self@.lemma_switch_workspace(index);
        }
        if index != self.index {
            let current = self.index;
            self.workspaces[current].fullscreen_window = None;
            self.index = index;
            assert(self@.workspaces =~= old(self)@.switch_workspace(index).workspaces);
        }
    }

    /// Focus the previous or the next window of the current workspace.
    pub fn cycle_focus(&mut self, dir: PrevOrNext)
        requires
            old(self)@.wf(),
        ensures
            final(self)@.wf(),
            final(self)@ == old(self)@.cycle_focus(dir),
    {
        let index = self.index;
        proof {
            self@.current().lemma_focus_ops(0, dir);
            self@.lemma_with_workspace(index as int, self@.current().cycle_focus(dir));
        }
        self.workspaces[index].cycle_focus(dir);
        proof {
            assert(self@.workspaces =~= old(self)@.cycle_focus(dir).workspaces);
        }
    }

    /// Return what the workspace of a window has recorded about it. A
    /// window that is not managed is refused.
    pub fn get_window_info(&self, window: Window) -> (res: Result<WindowWithInfo, WMError>)
        requires
            self@.wf(),
        ensures
            match res {
                Ok(info) => self@.is_managed(window) && info == self@.workspaces[self@.owner(
                    window,
                )].minimise.info()[window],
                Err(e) => !self@.is_managed(window) && e == WMError::UnknownWindow(window),
            },
    {
        match self.find_index(window) {
            None => Err(WMError::UnknownWindow(window)),
            Some(i) => {
                proof {
                    self@.lemma_managed(window);
                }
                self.workspaces[i].get_window_info(window)
            },
        }
    }

    /// Return the screen of the current workspace.
    pub fn get_screen(&self) -> (screen: Screen)
        requires
            self@.wf(),
        ensures
            screen == self@.current().screen(),
    {
        self.workspaces[self.index].get_screen()
    }

    /// Take note of a new screen in every workspace.
    pub fn resize_screen(&mut self, screen: Screen)
        requires
            old(self)@.wf(),
        ensures
            final(self)@ == old(self)@.resize_screen(screen),
            final(self)@.wf(),
    {
        let mut i: usize = 0;
        while i < self.workspaces.len()
            invariant
                i <= self.workspaces@.len(),
                self.workspaces@.len() == old(self).workspaces@.len(),
                self.index == old(self).index,
                forall|k: int|
                    0 <= k < i ==> (#[trigger] self.workspaces@[k])@ == old(self).workspaces@[k]@.resize_screen(screen),
                forall|k: int|
                    i <= k < self.workspaces@.len() ==> (#[trigger] self.workspaces@[k])@ == old(self).workspaces@[k]@,
            decreases self.workspaces@.len() - i,
        {
            self.workspaces[i].resize_screen(screen);
            i = i + 1;
        }
        proof {
            assert(self@.workspaces =~= old(self)@.resize_screen(screen).workspaces);
            assert forall|k: int| 0 <= k < self@.workspaces.len() implies (
            #[trigger] self@.workspaces[k]).wf() by {
                assert(old(self)@.workspaces[k].wf());
            }
            assert forall|a: int, b: int, w: Window|
                0 <= a < self@.workspaces.len() && 0 <= b < self@.workspaces.len() && a != b
                    && #[trigger] self@.workspaces[a].minimise.windows().contains(
                    w,
                ) implies !#[trigger] self@.workspaces[b].minimise.windows().contains(w) by {
                assert(old(self)@.workspaces[a].minimise.windows().contains(w));
            }
        }
    }

    /// Return the window in the master tile of the current workspace.
    pub fn get_master_window(&self) -> (master: Option<Window>)
        requires
            self@.wf(),
        ensures
            master == self@.current().minimise.floating.tiling.master(),
    {
        self.workspaces[self.index].get_master_window()
    }

    /// Exchange the given window with the master window of the current
    /// workspace. A window that the current workspace does not manage is
    /// refused.
    pub fn swap_with_master(&mut self, window: Window) -> (res: Result<(), WMError>)
        requires
            old(self)@.wf(),
        ensures
            final(self)@.wf(),
            match res {
                Ok(_) => {
                    &&& old(self)@.current().is_managed(window)
                    &&& final(self)@ == old(self)@.swap_with_master(window)
                },
                Err(e) => {
                    &&& !old(self)@.current().is_managed(window)
                    &&& e == WMError::UnknownWindow(window)
                    &&& final(self)@ == old(self)@
                },
            },
    {
        let index = self.index;
        proof {
            self@.current().lemma_focus_ops(window, PrevOrNext::Next);
            if self@.current().is_managed(window) {
                self@.lemma_with_workspace(index as int, self@.current().swap_with_master(window));
            }
        }
        let res = self.workspaces[index].swap_with_master(window);
        proof {
            if res.is_ok() {
                assert(self@.workspaces =~= old(self)@.swap_with_master(window).workspaces);
            } else {
                assert(self@.workspaces =~= old(self)@.workspaces);
            }
        }
        res
    }

    /// Exchange the tile of the focused window of the current workspace
    /// with the previous or the next tile.
    pub fn swap_windows(&mut self, dir: PrevOrNext)
        requires
            old(self)@.wf(),
        ensures
            final(self)@.wf(),
            final(self)@ == old(self)@.swap_windows(dir),
    {
        let index = self.index;
        proof {
            self@.current().lemma_focus_ops(0, dir);
            self@.lemma_with_workspace(index as int, self@.current().swap_windows(dir));
        }
        self.workspaces[index].swap_windows(dir);
        proof {
            assert(self@.workspaces =~= old(self)@.swap_windows(dir).workspaces);
        }
    }

    /// Return the floating windows that the layouts of the workspaces show,
    /// first workspace first.
    pub fn get_floating_windows(&self) -> (floating: Vec<Window>)
        requires
            self@.wf(),
        ensures
            floating@ == self@.floating_windows(),
    {
        let ghost parts = Seq::new(
            self@.workspaces.len(),
            |i: int| self@.workspaces[i].floating_windows(),
        );
        let mut floating: Vec<Window> = Vec::new();
        let mut i: usize = 0;
        proof {
            lemma_joined_ends(parts);
        }
        while i < self.workspaces.len()
            invariant
                i <= self.workspaces@.len(),
                self@.wf(),
                parts == Seq::new(
                    self@.workspaces.len(),
                    |i: int| self@.workspaces[i].floating_windows(),
                ),
                floating@ == joined(parts.take(i as int)),
            decreases self.workspaces@.len() - i,
        {
            assert(self@.workspaces[i as int].wf());
            let mut part = self.workspaces[i].get_floating_windows();
            proof {
                lemma_joined_step(parts, i as int);
            }
            floating.append(&mut part);
            i = i + 1;
        }
        proof {
            lemma_joined_ends(parts);
        }
        floating
    }

    /// Tell whether the layout of a workspace shows `window` floating:
    /// whether `get_floating_windows` lists it.
    pub fn is_floating(&self, window: Window) -> (floating: bool)
        requires
            self@.wf(),
        ensures
            floating == self@.floating_windows().contains(window),
    {
        let ghost parts = Seq::new(
            self@.workspaces.len(),
            |i: int| self@.workspaces[i].floating_windows(),
        );
        proof {
            lemma_joined(parts);
        }
        let mut i: usize = 0;
        while i < self.workspaces.len()
            invariant
                i <= self.workspaces@.len(),
                self@.wf(),
                parts == Seq::new(
                    self@.workspaces.len(),
                    |i: int| self@.workspaces[i].floating_windows(),
                ),
                forall|k: int| 0 <= k < i ==> !(#[trigger] parts[k]).contains(window),
            decreases self.workspaces@.len() - i,
        {
            assert(self@.workspaces[i as int].wf());
            if self.workspaces[i].is_floating(window) {
                proof {
                    lemma_joined(parts);
                    assert(parts[i as int].contains(window));
                }
                return true;
            }
            i = i + 1;
        }
        proof {
            lemma_joined(parts);
        }
        false
    }

    /// Let a floating window sink or set a tiled window afloat in the
    /// workspace that it belongs to. A window that is not managed is
    /// refused.
    pub fn toggle_floating(&mut self, window: Window) -> (res: Result<(), WMError>)
        requires
            old(self)@.wf(),
        ensures
            final(self)@.wf(),
            match res {
                Ok(_) => {
                    &&& old(self)@.is_managed(window)
                    &&& final(self)@ == old(self)@.toggle_floating(window)
                },
                Err(e) => {
                    &&& !old(self)@.is_managed(window)
                    &&& e == WMError::UnknownWindow(window)
                    &&& final(self)@ == old(self)@
                },
            },
    {
        match self.find_index(window) {
            None => Err(WMError::UnknownWindow(window)),
            Some(i) => {
                proof {
                    self@.lemma_managed(window);
                    self@.workspaces[i as int].lemma_toggle_floating(window);
                    self@.lemma_with_workspace(
                        i as int,
                        self@.workspaces[i as int].toggle_floating(window),
                    );
                }
                let res = self.workspaces[i].toggle_floating(window);
                proof {
                    assert(self@.workspaces =~= old(self)@.toggle_floating(window).workspaces);
                }
                res
            },
        }
    }

    /// Move or resize a floating window in the workspace that it belongs
    /// to. A window that is not managed is refused.
    pub fn set_window_geometry(&mut self, window: Window, new_geometry: Geometry) -> (res: Result<
        (),
        WMError,
    >)
        requires
            old(self)@.wf(),
        ensures
            final(self)@.wf(),
            match res {
                Ok(_) => {
                    &&& old(self)@.is_managed(window)
                    &&& final(self)@ == old(self)@.set_window_geometry(window, new_geometry)
                },
                Err(e) => {
                    &&& !old(self)@.is_managed(window)
                    &&& e == WMError::UnknownWindow(window)
                    &&& final(self)@ == old(self)@
                },
            },
    {
        match self.find_index(window) {
            None => Err(WMError::UnknownWindow(window)),
            Some(i) => {
                proof {
                    self@.lemma_managed(window);
                    self@.workspaces[i as int].lemma_set_window_geometry(window, new_geometry);
                    self@.lemma_with_workspace(
                        i as int,
                        self@.workspaces[i as int].set_window_geometry(window, new_geometry),
                    );
                }
                let res = self.workspaces[i].set_window_geometry(window, new_geometry);
                proof {
                    assert(self@.workspaces =~= old(self)@.set_window_geometry(
                        window,
                        new_geometry,
                    ).workspaces);
                }
                res
            },
        }
    }

    /// Return the minimised windows of all workspaces, first workspace
    /// first, and within a workspace the one that was minimised first in
    /// front.
    pub fn get_minimised_windows(&self) -> (minimised: Vec<Window>)
        requires
            self@.wf(),
        ensures
            minimised@ == self@.minimised_windows(),
    {
        let ghost parts = Seq::new(
            self@.workspaces.len(),
            |i: int| self@.workspaces[i].minimise.minimised,
        );
        let mut minimised: Vec<Window> = Vec::new();
        let mut i: usize = 0;
        proof {
            lemma_joined_ends(parts);
        }
        while i < self.workspaces.len()
            invariant
                i <= self.workspaces@.len(),
                parts == Seq::new(
                    self@.workspaces.len(),
                    |i: int| self@.workspaces[i].minimise.minimised,
                ),
                minimised@ == joined(parts.take(i as int)),
            decreases self.workspaces@.len() - i,
        {
            let mut part = self.workspaces[i].get_minimised_windows();
            proof {
                lemma_joined_step(parts, i as int);
            }
            minimised.append(&mut part);
            i = i + 1;
        }
        proof {
            lemma_joined_ends(parts);
        }
        minimised
    }

    /// Tell whether `window` is minimised: whether `get_minimised_windows`
    /// lists it.
    pub fn is_minimised(&self, window: Window) -> (minimised: bool)
        requires
            self@.wf(),
        ensures
            minimised == self@.minimised_windows().contains(window),
    {
        let ghost parts = Seq::new(
            self@.workspaces.len(),
            |i: int| self@.workspaces[i].minimise.minimised,
        );
        proof {
            lemma_joined(parts);
        }
        let mut i: usize = 0;
        while i < self.workspaces.len()
            invariant
                i <= self.workspaces@.len(),
                parts == Seq::new(
                    self@.workspaces.len(),
                    |i: int| self@.workspaces[i].minimise.minimised,
                ),
                forall|k: int| 0 <= k < i ==> !(#[trigger] parts[k]).contains(window),
            decreases self.workspaces@.len() - i,
        {
            if self.workspaces[i].is_minimised(window) {
                proof {
                    lemma_joined(parts);
                    assert(parts[i as int].contains(window));
                }
                return true;
            }
            i = i + 1;
        }
        proof {
            lemma_joined(parts);
        }
        false
    }

    /// Minimise a window in the workspace that it belongs to, or bring it
    /// back if it is minimised. The workspace of a window that comes back
    /// becomes the current one. A window that is not managed is refused.
    pub fn toggle_minimised(&mut self, window: Window) -> (res: Result<(), WMError>)
        requires
            old(self)@.wf(),
        ensures
            final(self)@.wf(),
            match res {
                Ok(_) => {
                    &&& old(self)@.is_managed(window)
                    &&& final(self)@ == old(self)@.toggle_minimised(window)
                },
                Err(e) => {
                    &&& !old(self)@.is_managed(window)
                    &&& e == WMError::UnknownWindow(window)
                    &&& final(self)@ == old(self)@
                },
            },
    {
        match self.find_index(window) {
            None => Err(WMError::UnknownWindow(window)),
            Some(i) => {
                proof {
                    self@.lemma_managed(window);
                    self@.lemma_switch_workspace(i);
                }
                if self.workspaces[i].is_minimised(window) {
                    self.switch_to(i);
                }
                let ghost mid = self@;
                proof {
                    mid.workspaces[i as int].lemma_toggle_minimised(window);
                    mid.lemma_with_workspace(
                        i as int,
                        mid.workspaces[i as int].toggle_minimised(window),
                    );
                }
                let res = self.workspaces[i].toggle_minimised(window);
                proof {
                    assert(self@.workspaces =~= mid.with_workspace(
                        i as int,
                        mid.workspaces[i as int].toggle_minimised(window),
                    ).workspaces);
                }
                res
            },
        }
    }

    /// Return the fullscreen window of the current workspace, if there is
    /// one.
    pub fn get_fullscreen_window(&self) -> (fullscreen: Option<Window>)
        requires
            self@.wf(),
        ensures
            fullscreen == self@.current().fullscreen,
    {
        self.workspaces[self.index].get_fullscreen_window()
    }

    /// Make the given window fullscreen in the workspace that it belongs
    /// to, or end it being fullscreen. That workspace becomes the current
    /// one. A window that is not managed is refused.
    pub fn toggle_fullscreen(&mut self, window: Window) -> (res: Result<(), WMError>)
        requires
            old(self)@.wf(),
        ensures
            final(self)@.wf(),
            match res {
                Ok(_) => {
                    &&& old(self)@.is_managed(window)
                    &&& final(self)@ == old(self)@.toggle_fullscreen(window)
                    &&& final(self)@.index == old(self)@.owner(window)
                },
                Err(e) => {
                    &&& !old(self)@.is_managed(window)
                    &&& e == WMError::UnknownWindow(window)
                    &&& final(self)@ == old(self)@
                },
            },
    {
        match self.find_index(window) {
            None => Err(WMError::UnknownWindow(window)),
            Some(i) => {
                proof {
                    self@.lemma_managed(window);
                    self@.lemma_switch_workspace(i);
                }
                self.switch_to(i);
                let ghost mid = self@;
                proof {
                    mid.workspaces[i as int].lemma_toggle_fullscreen(window);
                    mid.lemma_with_workspace(
                        i as int,
                        mid.workspaces[i as int].toggle_fullscreen(window),
                    );
                }
                let res = self.workspaces[i].toggle_fullscreen(window);
                proof {
                    assert(self@.workspaces =~= mid.with_workspace(
                        i as int,
                        mid.workspaces[i as int].toggle_fullscreen(window),
                    ).workspaces);
                }
                res
            },
        }
    }

    /// Return the index of the current workspace.
    pub fn get_current_workspace_index(&self) -> (index: WorkspaceIndex)
        ensures
            index == self@.index,
            self@.wf() ==> index <= MAX_WORKSPACE_INDEX,
    {
        self.index
    }

    /// Return the window manager of the workspace `index`. An index above
    /// `MAX_WORKSPACE_INDEX` is refused, and no other index of a
    /// well-formed window manager.
    pub fn get_workspace(&self, index: WorkspaceIndex) -> (res: Result<&FullWM, WMError>)
        ensures
            match res {
                Ok(workspace) => index <= MAX_WORKSPACE_INDEX && index < self@.workspaces.len()
                    && workspace@ == self@.workspaces[index as int],
                Err(e) => (index > MAX_WORKSPACE_INDEX || index >= self@.workspaces.len()) && e
                    == WMError::WorkspaceIndexNotValid(index),
            },
            self@.wf() ==> (res.is_ok() <==> index <= MAX_WORKSPACE_INDEX),
    {
        if index > MAX_WORKSPACE_INDEX || index >= self.workspaces.len() {
            return Err(WMError::WorkspaceIndexNotValid(index));
        }
        Ok(&self.workspaces[index])
    }

    /// Lend out the window manager of the workspace `index`. What is done
    /// to it is done to that workspace, and the other workspaces stay as
    /// they are; it is for the borrower to see that the window manager is
    /// well-formed afterwards, with no window in two workspaces. An index
    /// above `MAX_WORKSPACE_INDEX` is refused, and no other index of a
    /// well-formed window manager.
    pub fn get_workspace_mut(&mut self, index: WorkspaceIndex) -> (res: Result<
        &mut FullWM,
        WMError,
    >)
        ensures
            match res {
                Ok(workspace) => {
                    &&& index <= MAX_WORKSPACE_INDEX
                    &&& index < old(self)@.workspaces.len()
                    &&& workspace@ == old(self)@.workspaces[index as int]
                    &&& final(self)@.index == old(self)@.index
                    &&& final(self)@.workspaces.len() == old(self)@.workspaces.len()
                    &&& final(self)@.workspaces[index as int] == final(workspace)@
                    &&& forall|k: int|
                        0 <= k < old(self)@.workspaces.len() && k != index
                            ==> #[trigger] final(self)@.workspaces[k] == old(self)@.workspaces[k]
                },
                Err(e) => {
                    &&& index > MAX_WORKSPACE_INDEX || index >= old(self)@.workspaces.len()
                    &&& e == WMError::WorkspaceIndexNotValid(index)
                    &&& final(self)@ == old(self)@
                },
            },
            old(self)@.wf() ==> (res.is_ok() <==> index <= MAX_WORKSPACE_INDEX),
    {
        if index > MAX_WORKSPACE_INDEX || index >= self.workspaces.len() {
            return Err(WMError::WorkspaceIndexNotValid(index));
        }
        Ok(&mut self.workspaces[index])
    }

    /// Make the workspace `index` the current one. The workspace that is
    /// left keeps no window fullscreen. An index above
    /// `MAX_WORKSPACE_INDEX` is refused.
    pub fn switch_workspace(&mut self, index: WorkspaceIndex) -> (res: Result<(), WMError>)
        requires
            old(self)@.wf(),
        ensures
            final(self)@.wf(),
            match res {
                Ok(_) => {
                    &&& index <= MAX_WORKSPACE_INDEX
                    &&& final(self)@ == old(self)@.switch_workspace(index)
                    &&& final(self)@.index == index
                },
                Err(e) => {
                    &&& index > MAX_WORKSPACE_INDEX
                    &&& e == WMError::WorkspaceIndexNotValid(index)
                    &&& final(self)@ == old(self)@
                },
            },
    {
        if index > MAX_WORKSPACE_INDEX {
            return Err(WMError::WorkspaceIndexNotValid(index));
        }
        proof {
            self@.lemma_switch_workspace(index);
        }
        self.switch_to(index);
        Ok(())
    }
}

impl WindowManager for MultiWorkspaceWM {
    type Error = WMError;

    open spec fn wf(&self) -> bool {
        self@.wf()
    }

    open spec fn managed(&self) -> Seq<Window> {
        self@.windows()
    }

    open spec fn focus(&self) -> Option<Window> {
        self@.current().focused()
    }

    open spec fn screen(&self) -> Screen {
        self@.current().screen()
    }

    open spec fn lays_out(&self) -> bool {
        self@.current().fullscreen.is_none()
            ==> self@.current().minimise.floating.tiling.layout_fits()
    }

    open spec fn reach(&self) -> Seq<Window> {
        self@.current().minimise.windows()
    }

    open spec fn tells(&self, window: Window) -> bool {
        true
    }

    proof fn lemma_managed(&self) {
        self@.lemma_no_duplicates();
        self@.lemma_listed();
        let current = self@.current();
        assert(current.wf());
        if current.focused().is_some() {
            assert(current.minimise.windows()[current.minimise.windows().len() - 1]
                == current.minimise.windows().last());
            assert(self@.workspaces[self@.index as int].minimise.windows().contains(
                current.focused().unwrap(),
            ));
        }
    }

    proof fn lemma_tells(&self, window: Window) {
    }

    fn new(screen: Screen) -> (wm: Self)
        ensures
            wm@ == MultiState::start(screen),
            wm@.wf(),
    {
        let wm = MultiWorkspaceWM::new(screen);
        proof {
            let parts = Seq::new(
                wm@.workspaces.len(),
                |i: int| wm@.workspaces[i].minimise.windows(),
            );
            assert forall|x: Window| !wm@.windows().contains(x) by {
                lemma_joined(parts);
                if wm@.windows().contains(x) {
                    let i = choose|i: int| 0 <= i < parts.len() && (#[trigger] parts[i]).contains(x);
                    assert(parts[i] =~= Seq::<Window>::empty());
                }
            }
            if wm@.windows().len() > 0 {
                assert(wm@.windows().contains(wm@.windows()[0]));
            }
            assert(wm@.windows() =~= Seq::<Window>::empty());
        }
        wm
    }

    fn is_valid(&self) -> (valid: bool)
        ensures
            valid == self@.wf(),
    {
        MultiWorkspaceWM::is_valid(self)
    }

    fn can_lay_out(&self) -> (fits: bool)
        ensures
            fits == (self@.current().fullscreen.is_none()
                ==> self@.current().minimise.floating.tiling.layout_fits()),
    {
        MultiWorkspaceWM::can_lay_out(self)
    }

    fn get_window_layout(&self) -> (layout: WindowLayout)
        ensures
            layout.focused_window == self@.current().focused(),
            layout.windows@ == self@.current().layout_windows(),
            layout.shows_each_once(),
            layout.shows_focus(),
            forall|w: Window| #[trigger] layout.shows(w) ==> self@.current().is_managed(w),
    {
        proof {
            self@.lemma_listed();
            assert forall|w: Window| #[trigger]
                self@.current().is_managed(w) implies self@.windows().contains(w) by {
                assert(self@.workspaces[self@.index as int].minimise.windows().contains(w));
            }
        }
        MultiWorkspaceWM::get_window_layout(self)
    }

    fn is_managed(&self, window: Window) -> (managed: bool)
        ensures
            managed == self@.is_managed(window),
            managed == self@.windows().contains(window),
    {
        MultiWorkspaceWM::is_managed(self, window)
    }

    fn get_windows(&self) -> (windows: Vec<Window>)
        ensures
            windows@ == self@.windows(),
    {
        MultiWorkspaceWM::get_windows(self)
    }

    fn get_focused_window(&self) -> (focused: Option<Window>)
        ensures
            focused == self@.current().focused(),
    {
        MultiWorkspaceWM::get_focused_window(self)
    }

    fn add_window(&mut self, window_with_info: WindowWithInfo) -> (res: Result<(), WMError>)
        ensures
            final(self)@.wf(),
            match res {
                Ok(_) => {
                    &&& !old(self)@.is_managed(window_with_info.window)
                    &&& final(self)@ == old(self)@.add_window(window_with_info)
                    &&& final(self)@.is_managed(window_with_info.window)
                    &&& final(self)@.current().focused() == Some(window_with_info.window)
                },
                Err(e) => {
                    &&& old(self)@.is_managed(window_with_info.window)
                    &&& e == WMError::AlreadyManagedWindow(window_with_info.window)
                    &&& final(self)@ == old(self)@
                },
            },
    {
        proof {
            self@.lemma_managed(window_with_info.window);
            self@.lemma_listed();
            if !self@.is_managed(window_with_info.window) {
                assert(self@.current().wf());
                self@.current().lemma_add_window(window_with_info);
                self@.lemma_windows_after(
                    self@.index as int,
                    self@.current().add_window(window_with_info),
                );
            }
        }
        MultiWorkspaceWM::add_window(self, window_with_info)
    }

    fn remove_window(&mut self, window: Window) -> (res: Result<(), WMError>)
        ensures
            final(self)@.wf(),
            match res {
                Ok(_) => {
                    &&& old(self)@.is_managed(window)
                    &&& final(self)@ == old(self)@.remove_window(window)
                    &&& !final(self)@.is_managed(window)
                },
                Err(e) => {
                    &&& !old(self)@.is_managed(window)
                    &&& e == WMError::UnknownWindow(window)
                    &&& final(self)@ == old(self)@
                },
            },
    {
        proof {
            self@.lemma_managed(window);
            self@.lemma_listed();
            if self@.is_managed(window) {
                let o = self@.owner(window);
                let workspace = self@.workspaces[o];
                assert(workspace.wf());
                workspace.lemma_remove_window(window);
                workspace.minimise.lemma_remove_window(window);
                self@.lemma_windows_after(o, workspace.remove_window(window));
            }
        }
        MultiWorkspaceWM::remove_window(self, window)
    }

    fn focus_window(&mut self, window: Option<Window>) -> (res: Result<(), WMError>)
        ensures
            final(self)@.wf(),
            match window {
                None => res.is_ok() && final(self)@ == old(self)@.unfocus(),
                Some(w) => match res {
                    Ok(_) => {
                        &&& old(self)@.is_managed(w)
                        &&& final(self)@ == old(self)@.focus(w)
                        &&& final(self)@.index == old(self)@.owner(w)
                    },
                    Err(e) => {
                        &&& !old(self)@.is_managed(w)
                        &&& e == WMError::UnknownWindow(w)
                        &&& final(self)@ == old(self)@
                    },
                },
            },
            res.is_ok() ==> final(self)@.current().focused() == window,
    {
        proof {
            match window {
                Some(w) => {
                    self@.lemma_managed(w);
                    if self@.is_managed(w) {
                        let o = self@.owner(w);
                        let workspace = self@.workspaces[o];
                        assert(workspace.wf());
                        workspace.lemma_focus_ops(w, PrevOrNext::Next);
                        self@.lemma_same_windows(o, workspace.focus(w));
                        self@.with_workspace(o, workspace.focus(w)).lemma_switch_workspace(
                            o as usize,
                        );
                    }
                },
                None => {
                    assert(self@.current().wf());
                    self@.current().lemma_focus_ops(0, PrevOrNext::Next);
                    self@.lemma_same_windows(self@.index as int, self@.current().unfocus());
                },
            }
        }
        MultiWorkspaceWM::focus_window(self, window)
    }

    fn cycle_focus(&mut self, dir: PrevOrNext)
        ensures
            final(self)@.wf(),
            final(self)@ == old(self)@.cycle_focus(dir),
    {
        proof {
            assert(self@.current().wf());
            self@.current().lemma_focus_ops(0, dir);
            self@.lemma_same_windows(self@.index as int, self@.current().cycle_focus(dir));
        }
        MultiWorkspaceWM::cycle_focus(self, dir)
    }

    fn get_window_info(&self, window: Window) -> (res: Result<WindowWithInfo, WMError>)
        ensures
            match res {
                Ok(info) => self@.is_managed(window) && info == self@.workspaces[self@.owner(
                    window,
                )].minimise.info()[window],
                Err(e) => !self@.is_managed(window) && e == WMError::UnknownWindow(window),
            },
    {
        proof {
            self@.lemma_managed(window);
            if self@.is_managed(window) {
                let workspace = self@.workspaces[self@.owner(window)];
                assert(workspace.wf());
                assert(workspace.minimise.info().contains_key(window));
            }
        }
        MultiWorkspaceWM::get_window_info(self, window)
    }

    fn get_screen(&self) -> (screen: Screen)
        ensures
            screen == self@.current().screen(),
    {
        MultiWorkspaceWM::get_screen(self)
    }

    fn resize_screen(&mut self, screen: Screen)
        ensures
            final(self)@ == old(self)@.resize_screen(screen),
            final(self)@.wf(),
    {
        proof {
            let t = self@.resize_screen(screen);
            assert(Seq::new(t.workspaces.len(), |k: int| t.workspaces[k].minimise.windows())
                =~= Seq::new(
                self@.workspaces.len(),
                |k: int| self@.workspaces[k].minimise.windows(),
            ));
        }
        MultiWorkspaceWM::resize_screen(self, screen)
    }
}

impl TilingSupport for MultiWorkspaceWM {
    open spec fn master(&self) -> Option<Window> {
        self@.current().minimise.floating.tiling.master()
    }

    fn get_master_window(&self) -> (master: Option<Window>)
        ensures
            master == self@.current().minimise.floating.tiling.master(),
    {
        proof {
            self@.lemma_listed();
            let current = self@.current();
            assert(current.wf());
            if current.minimise.tiles().len() > 0 {
                assert(current.minimise.tiles().contains(current.minimise.tiles()[0]));
                assert(self@.workspaces[self@.index as int].minimise.windows().contains(
                    current.minimise.tiles()[0],
                ));
            }
        }
        MultiWorkspaceWM::get_master_window(self)
    }

    fn swap_with_master(&mut self, window: Window) -> (res: Result<(), WMError>)
        ensures
            final(self)@.wf(),
            match res {
                Ok(_) => {
                    &&& old(self)@.current().is_managed(window)
                    &&& final(self)@ == old(self)@.swap_with_master(window)
                },
                Err(e) => {
                    &&& !old(self)@.current().is_managed(window)
                    &&& e == WMError::UnknownWindow(window)
                    &&& final(self)@ == old(self)@
                },
            },
    {
        proof {
            self@.lemma_listed();
            let current = self@.current();
            assert(current.wf());
            current.lemma_focus_ops(window, PrevOrNext::Next);
            if current.is_managed(window) {
                assert(self@.workspaces[self@.index as int].minimise.windows().contains(window));
                self@.lemma_same_windows(self@.index as int, current.swap_with_master(window));
            }
        }
        MultiWorkspaceWM::swap_with_master(self, window)
    }

    fn swap_windows(&mut self, dir: PrevOrNext)
        ensures
            final(self)@.wf(),
            final(self)@ == old(self)@.swap_windows(dir),
    {
        proof {
            let current = self@.current();
            assert(current.wf());
            current.lemma_focus_ops(0, dir);
            current.minimise.lemma_swap_windows(dir);
            let t = self@.swap_windows(dir);
            assert(Seq::new(t.workspaces.len(), |k: int| t.workspaces[k].minimise.windows())
                =~= Seq::new(
                self@.workspaces.len(),
                |k: int| self@.workspaces[k].minimise.windows(),
            ));
        }
        MultiWorkspaceWM::swap_windows(self, dir)
    }
}

impl FloatSupport for MultiWorkspaceWM {
    open spec fn floating(&self) -> Seq<Window> {
        self@.floating_windows()
    }

    proof fn lemma_floating(&self) {
        self@.lemma_listed();
        let parts = Seq::new(
            self@.workspaces.len(),
            |i: int| self@.workspaces[i].floating_windows(),
        );
        lemma_joined(parts);
        assert forall|w: Window| #[trigger]
            self@.floating_windows().contains(w) implies self@.windows().contains(w) by {
            let i = choose|i: int| 0 <= i < parts.len() && (#[trigger] parts[i]).contains(w);
            let workspace = self@.workspaces[i];
            assert(workspace.wf());
            assert(workspace.floating_windows().contains(w));
            match workspace.fullscreen {
                Some(f) => {
                    let k = choose|k: int|
                        0 <= k < workspace.floating_windows().len()
                            && workspace.floating_windows()[k] == w;
                    assert(k == 0);
                    assert(w == f);
                },
                None => {
                    workspace.minimise.floating.lemma_floating_windows();
                },
            }
            assert(self@.workspaces[i].minimise.windows().contains(w));
        }
    }

    fn get_floating_windows(&self) -> (floating: Vec<Window>)
        ensures
            floating@ == self@.floating_windows(),
    {
        MultiWorkspaceWM::get_floating_windows(self)
    }

    fn is_floating(&self, window: Window) -> (floating: bool)
        ensures
            floating == self@.floating_windows().contains(window),
    {
        MultiWorkspaceWM::is_floating(self, window)
    }

    fn toggle_floating(&mut self, window: Window) -> (res: Result<(), WMError>)
        ensures
            final(self)@.wf(),
            match res {
                Ok(_) => {
                    &&& old(self)@.is_managed(window)
                    &&& final(self)@ == old(self)@.toggle_floating(window)
                },
                Err(e) => {
                    &&& !old(self)@.is_managed(window)
                    &&& e == WMError::UnknownWindow(window)
                    &&& final(self)@ == old(self)@
                },
            },
    {
        proof {
            self@.lemma_managed(window);
            self@.lemma_floating(window);
            if self@.is_managed(window) {
                let o = self@.owner(window);
                let workspace = self@.workspaces[o];
                assert(workspace.wf());
                workspace.lemma_toggle_floating(window);
                self@.lemma_same_windows(o, workspace.toggle_floating(window));
                let t = self@.with_workspace(o, workspace.toggle_floating(window));
                t.lemma_floating(window);
                if workspace.floating_windows().contains(window) {
                    workspace.lemma_toggle_floating_sinks(window);
                }
            }
        }
        MultiWorkspaceWM::toggle_floating(self, window)
    }

    fn set_window_geometry(&mut self, window: Window, new_geometry: Geometry) -> (res: Result<
        (),
        WMError,
    >)
        ensures
            final(self)@.wf(),
            match res {
                Ok(_) => {
                    &&& old(self)@.is_managed(window)
                    &&& final(self)@ == old(self)@.set_window_geometry(window, new_geometry)
                },
                Err(e) => {
                    &&& !old(self)@.is_managed(window)
                    &&& e == WMError::UnknownWindow(window)
                    &&& final(self)@ == old(self)@
                },
            },
    {
        proof {
            self@.lemma_managed(window);
            if self@.is_managed(window) {
                let o = self@.owner(window);
                let workspace = self@.workspaces[o];
                assert(workspace.wf());
                workspace.lemma_set_window_geometry(window, new_geometry);
                self@.lemma_same_windows(o, workspace.set_window_geometry(window, new_geometry));
            }
        }
        MultiWorkspaceWM::set_window_geometry(self, window, new_geometry)
    }
}

impl MinimiseSupport for MultiWorkspaceWM {
    open spec fn minimised(&self) -> Seq<Window> {
        self@.minimised_windows()
    }

    proof fn lemma_minimised(&self) {
        self@.lemma_listed();
        let parts = Seq::new(
            self@.workspaces.len(),
            |i: int| self@.workspaces[i].minimise.minimised,
        );
        lemma_joined(parts);
        assert forall|w: Window| #[trigger]
            self@.minimised_windows().contains(w) implies self@.windows().contains(w) by {
            let i = choose|i: int| 0 <= i < parts.len() && (#[trigger] parts[i]).contains(w);
            assert(self@.workspaces[i].wf());
            assert(self@.workspaces[i].minimise.minimised.contains(w));
            assert(self@.workspaces[i].minimise.windows().contains(w));
        }
    }

    fn get_minimised_windows(&self) -> (minimised: Vec<Window>)
        ensures
            minimised@ == self@.minimised_windows(),
    {
        MultiWorkspaceWM::get_minimised_windows(self)
    }

    fn is_minimised(&self, window: Window) -> (minimised: bool)
        ensures
            minimised == self@.minimised_windows().contains(window),
    {
        MultiWorkspaceWM::is_minimised(self, window)
    }

    fn toggle_minimised(&mut self, window: Window) -> (res: Result<(), WMError>)
        ensures
            final(self)@.wf(),
            match res {
                Ok(_) => {
                    &&& old(self)@.is_managed(window)
                    &&& final(self)@ == old(self)@.toggle_minimised(window)
                },
                Err(e) => {
                    &&& !old(self)@.is_managed(window)
                    &&& e == WMError::UnknownWindow(window)
                    &&& final(self)@ == old(self)@
                },
            },
    {
        proof {
            self@.lemma_managed(window);
            self@.lemma_minimised(window);
            if self@.is_managed(window) {
                let o = self@.owner(window);
                self@.lemma_switch_workspace(o as usize);
                let s = if self@.workspaces[o].minimise.is_minimised(window) {
                    self@.switch_workspace(o as usize)
                } else {
                    self@
                };
                let workspace = s.workspaces[o];
                assert(workspace.wf());
                assert(workspace.minimise == self@.workspaces[o].minimise);
                workspace.lemma_toggle_minimised(window);
                workspace.minimise.lemma_toggle_minimised(window);
                s.lemma_same_windows(o, workspace.toggle_minimised(window));
                let t = s.with_workspace(o, workspace.toggle_minimised(window));
                t.lemma_minimised(window);
                t.lemma_managed(window);
                s.lemma_managed(window);
                assert(t.workspaces[o].is_managed(window));
            }
        }
        MultiWorkspaceWM::toggle_minimised(self, window)
    }
}

impl FullscreenSupport for MultiWorkspaceWM {
    open spec fn fullscreen(&self) -> Option<Window> {
        self@.current().fullscreen
    }

    fn get_fullscreen_window(&self) -> (fullscreen: Option<Window>)
        ensures
            fullscreen == self@.current().fullscreen,
    {
        proof {
            assert(self@.current().wf());
        }
        MultiWorkspaceWM::get_fullscreen_window(self)
    }

    fn toggle_fullscreen(&mut self, window: Window) -> (res: Result<(), WMError>)
        ensures
            final(self)@.wf(),
            match res {
                Ok(_) => {
                    &&& old(self)@.is_managed(window)
                    &&& final(self)@ == old(self)@.toggle_fullscreen(window)
                    &&& final(self)@.index == old(self)@.owner(window)
                },
                Err(e) => {
                    &&& !old(self)@.is_managed(window)
                    &&& e == WMError::UnknownWindow(window)
                    &&& final(self)@ == old(self)@
                },
            },
    {
        proof {
            self@.lemma_managed(window);
            if self@.is_managed(window) {
                let o = self@.owner(window);
                self@.lemma_switch_workspace(o as usize);
                let s = self@.switch_workspace(o as usize);
                let workspace = s.workspaces[o];
                assert(workspace.wf());
                assert(self@.current().wf());
                workspace.lemma_toggle_fullscreen(window);
                s.lemma_same_windows(o, workspace.toggle_fullscreen(window));
            }
        }
        MultiWorkspaceWM::toggle_fullscreen(self, window)
    }
}

impl MultiWorkspaceSupport<FullWM> for MultiWorkspaceWM {
    open spec fn current_index(&self) -> WorkspaceIndex {
        self@.index
    }

    fn get_current_workspace_index(&self) -> (index: WorkspaceIndex)
        ensures
            index == self@.index,
            self@.wf() ==> index <= MAX_WORKSPACE_INDEX,
    {
        MultiWorkspaceWM::get_current_workspace_index(self)
    }

    fn get_workspace(&self, index: WorkspaceIndex) -> (res: Result<&FullWM, WMError>)
        ensures
            match res {
                Ok(workspace) => index <= MAX_WORKSPACE_INDEX && index < self@.workspaces.len()
                    && workspace@ == self@.workspaces[index as int],
                Err(e) => (index > MAX_WORKSPACE_INDEX || index >= self@.workspaces.len()) && e
                    == WMError::WorkspaceIndexNotValid(index),
            },
            self@.wf() ==> (res.is_ok() <==> index <= MAX_WORKSPACE_INDEX),
    {
        MultiWorkspaceWM::get_workspace(self, index)
    }

    fn get_workspace_mut(&mut self, index: WorkspaceIndex) -> (res: Result<&mut FullWM, WMError>)
        ensures
            match res {
                Ok(workspace) => {
                    &&& index <= MAX_WORKSPACE_INDEX
                    &&& index < old(self)@.workspaces.len()
                    &&& workspace@ == old(self)@.workspaces[index as int]
                    &&& final(self)@.index == old(self)@.index
                    &&& final(self)@.workspaces.len() == old(self)@.workspaces.len()
                    &&& final(self)@.workspaces[index as int] == final(workspace)@
                    &&& forall|k: int|
                        0 <= k < old(self)@.workspaces.len() && k != index
                            ==> #[trigger] final(self)@.workspaces[k] == old(self)@.workspaces[k]
                },
                Err(e) => {
                    &&& index > MAX_WORKSPACE_INDEX || index >= old(self)@.workspaces.len()
                    &&& e == WMError::WorkspaceIndexNotValid(index)
                    &&& final(self)@ == old(self)@
                },
            },
            old(self)@.wf() ==> (res.is_ok() <==> index <= MAX_WORKSPACE_INDEX),
    {
        MultiWorkspaceWM::get_workspace_mut(self, index)
    }

    fn switch_workspace(&mut self, index: WorkspaceIndex) -> (res: Result<(), WMError>)
        ensures
            final(self)@.wf(),
            match res {
                Ok(_) => {
                    &&& index <= MAX_WORKSPACE_INDEX
                    &&& final(self)@ == old(self)@.switch_workspace(index)
                    &&& final(self)@.index == index
                },
                Err(e) => {
                    &&& index > MAX_WORKSPACE_INDEX
                    &&& e == WMError::WorkspaceIndexNotValid(index)
                    &&& final(self)@ == old(self)@
                },
            },
    {
        proof {
            if index <= MAX_WORKSPACE_INDEX {
                self@.lemma_switch_workspace(index);
            }
        }
        MultiWorkspaceWM::switch_workspace(self, index)
    }
}

} // verus!
