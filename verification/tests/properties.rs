use cplwm::floating::FloatingWM;
use cplwm::fullscreen::FullWM;
use cplwm::fullscreen_wm::FullscreenWM;
use cplwm::gaps::GapsWM;
use cplwm::minimise::MinimiseWM;
use cplwm::tiling::TilingWM;
use cplwm::types::{
    FloatOrTile, Geometry, PrevOrNext, Screen, Window, WindowLayout, WindowWithInfo,
    MAX_WORKSPACE_INDEX,
};
use cplwm::wm::{FloatSupport, FullscreenSupport, MinimiseSupport, TilingSupport, WindowManager};
use cplwm::wm_error::WMError;
use cplwm::workspaces::MultiWorkspaceWM;

fn screen() -> Screen {
    Screen { width: 800, height: 600 }
}

fn geom() -> Geometry {
    Geometry { x: 10, y: 10, width: 100, height: 100 }
}

fn tiled(n: u64) -> TilingWM {
    let mut wm = TilingWM::new(screen());
    for w in 1..=n {
        wm.add_window(WindowWithInfo::new_tiled(w, geom())).unwrap();
    }
    wm
}

#[test]
fn managed_windows_are_the_listed_windows() {
    let mut wm = FullWM::new(screen());
    wm.add_window(WindowWithInfo::new_tiled(4, geom())).unwrap();
    wm.add_window(WindowWithInfo::new_float(7, geom())).unwrap();
    wm.add_window(WindowWithInfo::new_fullscreen(9, geom())).unwrap();
    wm.toggle_minimised(7).unwrap();
    let listed = wm.get_windows();
    for w in 0..12 {
        assert_eq!(wm.is_managed(w), listed.contains(&w));
    }
    let mut multi = MultiWorkspaceWM::new(screen());
    multi.add_window(WindowWithInfo::new_tiled(4, geom())).unwrap();
    multi.switch_workspace(MAX_WORKSPACE_INDEX).unwrap();
    multi.add_window(WindowWithInfo::new_tiled(5, geom())).unwrap();
    let listed = multi.get_windows();
    assert_eq!(listed, vec![4, 5]);
    for w in 0..8 {
        assert_eq!(multi.is_managed(w), listed.contains(&w));
    }
}

#[test]
fn added_window_is_focused_and_managed() {
    let infos = [
        WindowWithInfo::new_tiled(1, geom()),
        WindowWithInfo::new_float(2, geom()),
        WindowWithInfo::new_fullscreen(3, geom()),
        WindowWithInfo::new(4, geom(), FloatOrTile::Float, true),
    ];
    let mut full = FullWM::new(screen());
    let mut multi = MultiWorkspaceWM::new(screen());
    let mut minimise = MinimiseWM::new(screen());
    let mut floating = FloatingWM::new(screen());
    let mut tiling = TilingWM::new(screen());
    let mut gaps = GapsWM::new(screen());
    let mut simple = FullscreenWM::new(screen());
    for info in infos {
        full.add_window(info).unwrap();
        assert_eq!(full.get_focused_window(), Some(info.window));
        assert!(full.is_managed(info.window));
        multi.add_window(info).unwrap();
        assert_eq!(multi.get_focused_window(), Some(info.window));
        assert!(multi.is_managed(info.window));
        minimise.add_window(info).unwrap();
        assert_eq!(minimise.get_focused_window(), Some(info.window));
        assert!(minimise.is_managed(info.window));
        floating.add_window(info).unwrap();
        assert_eq!(floating.get_focused_window(), Some(info.window));
        assert!(floating.is_managed(info.window));
        tiling.add_window(info).unwrap();
        assert_eq!(tiling.get_focused_window(), Some(info.window));
        assert!(tiling.is_managed(info.window));
        gaps.add_window(info).unwrap();
        assert_eq!(gaps.get_focused_window(), Some(info.window));
        assert!(gaps.is_managed(info.window));
        simple.add_window(info).unwrap();
        assert_eq!(simple.get_focused_window(), Some(info.window));
        assert!(simple.is_managed(info.window));
    }
}

#[test]
fn adding_twice_is_refused() {
    let mut wm = FullWM::new(screen());
    wm.add_window(WindowWithInfo::new_tiled(1, geom())).unwrap();
    let before = wm.get_window_layout();
    assert_eq!(
        wm.add_window(WindowWithInfo::new_float(1, geom())),
        Err(WMError::AlreadyManagedWindow(1))
    );
    assert_eq!(wm.get_window_layout(), before);
    assert_eq!(wm.get_windows(), vec![1]);
    let mut multi = MultiWorkspaceWM::new(screen());
    multi.add_window(WindowWithInfo::new_tiled(1, geom())).unwrap();
    multi.switch_workspace(2).unwrap();
    assert_eq!(
        multi.add_window(WindowWithInfo::new_tiled(1, geom())),
        Err(WMError::AlreadyManagedWindow(1))
    );
    assert_eq!(multi.get_windows(), vec![1]);
}

#[test]
fn swapping_back_restores_the_layout() {
    for n in 2..6u64 {
        for focused in 1..=n {
            for dir in [PrevOrNext::Prev, PrevOrNext::Next] {
                let mut wm = tiled(n);
                wm.focus_window(Some(focused)).unwrap();
                let before = wm.get_window_layout();
                wm.swap_windows(dir);
                assert_eq!(wm.get_focused_window(), Some(focused));
                if n > 2 {
                    assert_ne!(wm.get_window_layout(), before);
                }
                wm.swap_windows(dir.opposite());
                assert_eq!(wm.get_window_layout(), before);
            }
        }
    }
}

#[test]
fn swapping_windows_moves_the_focused_tile() {
    let order = |wm: &TilingWM| -> Vec<Window> {
        wm.get_window_layout().windows.iter().map(|p| p.0).collect()
    };
    let mut wm = tiled(4);
    wm.focus_window(Some(1)).unwrap();
    wm.swap_windows(PrevOrNext::Prev);
    assert_eq!(order(&wm), vec![4, 2, 3, 1]);
    wm.swap_windows(PrevOrNext::Next);
    assert_eq!(order(&wm), vec![1, 2, 3, 4]);
    wm.focus_window(Some(4)).unwrap();
    wm.swap_windows(PrevOrNext::Next);
    assert_eq!(order(&wm), vec![4, 2, 3, 1]);
    wm.swap_windows(PrevOrNext::Next);
    assert_eq!(order(&wm), vec![2, 4, 3, 1]);
    wm.swap_windows(PrevOrNext::Prev);
    wm.swap_windows(PrevOrNext::Prev);
    assert_eq!(order(&wm), vec![1, 2, 3, 4]);
    let mut one = tiled(1);
    one.swap_windows(PrevOrNext::Next);
    assert_eq!(order(&one), vec![1]);
    let mut none = tiled(0);
    none.swap_windows(PrevOrNext::Prev);
    assert_eq!(none.get_window_layout(), WindowLayout::new());
}

#[test]
fn toggling_floating_twice_restores_is_floating() {
    let mut floating = FloatingWM::new(screen());
    let mut minimise = MinimiseWM::new(screen());
    let mut full = FullWM::new(screen());
    for info in [WindowWithInfo::new_tiled(1, geom()), WindowWithInfo::new_float(2, geom())] {
        floating.add_window(info).unwrap();
        minimise.add_window(info).unwrap();
        full.add_window(info).unwrap();
    }
    for w in [1, 2] {
        let was = floating.is_floating(w);
        floating.toggle_floating(w).unwrap();
        assert_eq!(floating.is_floating(w), !was);
        floating.toggle_floating(w).unwrap();
        assert_eq!(floating.is_floating(w), was);
        let was = minimise.is_floating(w);
        minimise.toggle_floating(w).unwrap();
        minimise.toggle_floating(w).unwrap();
        assert_eq!(minimise.is_floating(w), was);
        let was = full.is_floating(w);
        full.toggle_floating(w).unwrap();
        full.toggle_floating(w).unwrap();
        assert_eq!(full.is_floating(w), was);
    }
}

#[test]
fn floating_window_keeps_its_geometry() {
    let mut wm = FloatingWM::new(screen());
    let own = Geometry { x: 33, y: 44, width: 55, height: 66 };
    wm.add_window(WindowWithInfo::new_tiled(1, own)).unwrap();
    assert_eq!(wm.get_window_layout().windows, vec![(1, screen().to_geometry())]);
    wm.toggle_floating(1).unwrap();
    assert_eq!(wm.get_window_layout().windows, vec![(1, own)]);
    assert_eq!(wm.get_master_window(), None);
    let moved = Geometry { x: 1, y: 2, width: 3, height: 4 };
    wm.set_window_geometry(1, moved).unwrap();
    assert_eq!(wm.get_window_layout().windows, vec![(1, moved)]);
    assert_eq!(wm.get_window_info(1), Ok(WindowWithInfo::new_float(1, moved)));
    wm.toggle_floating(1).unwrap();
    assert_eq!(wm.get_window_layout().windows, vec![(1, screen().to_geometry())]);
    wm.set_window_geometry(1, own).unwrap();
    assert_eq!(wm.get_window_layout().windows, vec![(1, screen().to_geometry())]);
    assert_eq!(wm.get_window_info(1), Ok(WindowWithInfo::new_tiled(1, moved)));
}

#[test]
fn floating_windows_are_stacked_in_focus_order_above_the_tiles() {
    let mut wm = FloatingWM::new(screen());
    wm.add_window(WindowWithInfo::new_float(1, geom())).unwrap();
    wm.add_window(WindowWithInfo::new_tiled(2, geom())).unwrap();
    wm.add_window(WindowWithInfo::new_float(3, geom())).unwrap();
    wm.add_window(WindowWithInfo::new_tiled(4, geom())).unwrap();
    let order = |wm: &FloatingWM| -> Vec<Window> {
        wm.get_window_layout().windows.iter().map(|p| p.0).collect()
    };
    assert_eq!(order(&wm), vec![2, 4, 1, 3]);
    assert_eq!(wm.get_floating_windows(), vec![1, 3]);
    wm.focus_window(Some(1)).unwrap();
    assert_eq!(order(&wm), vec![2, 4, 3, 1]);
    assert_eq!(wm.get_floating_windows(), vec![3, 1]);
    wm.swap_windows(PrevOrNext::Next);
    assert_eq!(order(&wm), vec![2, 4, 3, 1]);
    wm.swap_with_master(3).unwrap();
    assert_eq!(order(&wm), vec![2, 4, 3, 1]);
    assert_eq!(wm.get_focused_window(), Some(1));
}

#[test]
fn fullscreen_window_is_alone_and_fills_the_screen() {
    let mut wm = FullWM::new(screen());
    wm.add_window(WindowWithInfo::new_tiled(1, geom())).unwrap();
    wm.add_window(WindowWithInfo::new_float(2, geom())).unwrap();
    wm.add_window(WindowWithInfo::new_tiled(3, geom())).unwrap();
    for w in [1, 2, 3, 2] {
        wm.toggle_fullscreen(w).unwrap();
        assert_eq!(wm.get_fullscreen_window(), Some(w));
        assert_eq!(wm.get_focused_window(), Some(w));
        let layout = wm.get_window_layout();
        assert_eq!(layout.focused_window, Some(w));
        assert_eq!(layout.windows, vec![(w, Geometry { x: 0, y: 0, width: 800, height: 600 })]);
    }
    wm.resize_screen(Screen { width: 1024, height: 768 });
    assert_eq!(
        wm.get_window_layout().windows,
        vec![(2, Geometry { x: 0, y: 0, width: 1024, height: 768 })]
    );
    wm.toggle_fullscreen(2).unwrap();
    assert_eq!(wm.get_fullscreen_window(), None);
    assert_eq!(wm.get_window_layout().windows.len(), 3);
}

#[test]
fn fullscreen_ends_when_the_focus_moves() {
    let mut wm = FullWM::new(screen());
    wm.add_window(WindowWithInfo::new_tiled(1, geom())).unwrap();
    wm.add_window(WindowWithInfo::new_tiled(2, geom())).unwrap();
    wm.add_window(WindowWithInfo::new_float(3, geom())).unwrap();
    wm.toggle_fullscreen(3).unwrap();
    wm.swap_with_master(2).unwrap();
    assert_eq!(wm.get_fullscreen_window(), None);
    assert_eq!(wm.get_focused_window(), Some(2));
    assert_eq!(wm.get_master_window(), Some(2));
    wm.toggle_fullscreen(3).unwrap();
    wm.toggle_floating(1).unwrap();
    assert_eq!(wm.get_fullscreen_window(), None);
    assert!(wm.is_floating(1));
    wm.toggle_fullscreen(3).unwrap();
    wm.toggle_minimised(1).unwrap();
    assert_eq!(wm.get_fullscreen_window(), Some(3));
    wm.toggle_minimised(1).unwrap();
    assert_eq!(wm.get_fullscreen_window(), None);
    assert_eq!(wm.get_focused_window(), Some(1));
    wm.toggle_fullscreen(3).unwrap();
    wm.set_window_geometry(1, geom()).unwrap();
    assert_eq!(wm.get_fullscreen_window(), Some(3));
    wm.toggle_minimised(1).unwrap();
    wm.set_window_geometry(1, geom()).unwrap();
    assert_eq!(wm.get_fullscreen_window(), None);
    assert_eq!(wm.get_focused_window(), Some(1));
    wm.toggle_fullscreen(3).unwrap();
    wm.swap_windows(PrevOrNext::Next);
    assert_eq!(wm.get_fullscreen_window(), Some(3));
    wm.swap_with_master(1).unwrap();
    assert_eq!(wm.get_fullscreen_window(), Some(3));
    wm.remove_window(2).unwrap();
    assert_eq!(wm.get_fullscreen_window(), Some(3));
    assert_eq!(wm.get_focused_window(), Some(3));
    wm.remove_window(3).unwrap();
    assert_eq!(wm.get_fullscreen_window(), None);
}

#[test]
fn minimising_the_only_window() {
    let mut wm = MinimiseWM::new(screen());
    wm.add_window(WindowWithInfo::new_tiled(1, geom())).unwrap();
    let before = wm.get_window_layout();
    wm.toggle_minimised(1).unwrap();
    assert_eq!(wm.get_window_layout(), WindowLayout::new());
    assert_eq!(wm.get_focused_window(), None);
    assert!(wm.is_minimised(1));
    assert!(wm.is_managed(1));
    wm.toggle_minimised(1).unwrap();
    assert_eq!(wm.get_window_layout(), before);
    assert!(!wm.is_minimised(1));
}

#[test]
fn minimised_tile_comes_back_as_last_tile() {
    let mut wm = MinimiseWM::new(screen());
    for w in 1..4 {
        wm.add_window(WindowWithInfo::new_tiled(w, geom())).unwrap();
    }
    wm.toggle_minimised(1).unwrap();
    assert_eq!(wm.get_master_window(), Some(2));
    assert_eq!(wm.get_focused_window(), Some(3));
    wm.toggle_minimised(1).unwrap();
    let order: Vec<Window> = wm.get_window_layout().windows.iter().map(|p| p.0).collect();
    assert_eq!(order, vec![2, 3, 1]);
    assert_eq!(wm.get_focused_window(), Some(1));
}

#[test]
fn focus_falls_back_to_the_nearest_visible_window() {
    let mut wm = MinimiseWM::new(screen());
    for w in 1..5 {
        wm.add_window(WindowWithInfo::new_tiled(w, geom())).unwrap();
    }
    wm.toggle_minimised(3).unwrap();
    assert_eq!(wm.get_focused_window(), Some(4));
    wm.toggle_minimised(4).unwrap();
    assert_eq!(wm.get_focused_window(), Some(2));
    assert_eq!(wm.get_minimised_windows(), vec![3, 4]);
    wm.remove_window(2).unwrap();
    assert_eq!(wm.get_focused_window(), Some(1));
    wm.remove_window(1).unwrap();
    assert_eq!(wm.get_focused_window(), None);
    assert_eq!(wm.get_window_layout(), WindowLayout::new());
    assert_eq!(wm.get_windows().len(), 2);
    wm.remove_window(3).unwrap();
    assert_eq!(wm.get_focused_window(), None);
    assert_eq!(wm.get_minimised_windows(), vec![4]);
    let layout = wm.get_window_layout();
    assert_eq!(layout, WindowLayout::new());
}

#[test]
fn workspaces_are_separate() {
    let mut wm = MultiWorkspaceWM::new(screen());
    wm.add_window(WindowWithInfo::new_tiled(1, geom())).unwrap();
    wm.switch_workspace(1).unwrap();
    assert!(wm.get_windows().contains(&1));
    assert_eq!(wm.get_focused_window(), None);
    assert_eq!(wm.get_window_layout(), WindowLayout::new());
    assert_eq!(wm.swap_with_master(1), Err(WMError::UnknownWindow(1)));
    wm.switch_workspace(0).unwrap();
    assert_eq!(wm.get_focused_window(), Some(1));
}

#[test]
fn last_workspace_is_a_workspace() {
    let mut wm = MultiWorkspaceWM::new(screen());
    wm.switch_workspace(MAX_WORKSPACE_INDEX).unwrap();
    wm.add_window(WindowWithInfo::new_float(8, geom())).unwrap();
    wm.toggle_minimised(8).unwrap();
    wm.switch_workspace(0).unwrap();
    assert!(wm.is_managed(8));
    assert_eq!(wm.get_windows(), vec![8]);
    assert_eq!(wm.get_minimised_windows(), vec![8]);
    assert!(wm.is_minimised(8));
    assert_eq!(wm.get_window_info(8), Ok(WindowWithInfo::new_float(8, geom())));
    wm.resize_screen(Screen { width: 10, height: 20 });
    assert_eq!(
        wm.get_workspace(MAX_WORKSPACE_INDEX).unwrap().get_screen(),
        Screen { width: 10, height: 20 }
    );
    wm.toggle_minimised(8).unwrap();
    assert_eq!(wm.get_current_workspace_index(), MAX_WORKSPACE_INDEX);
    assert_eq!(wm.get_floating_windows(), vec![8]);
    assert!(wm.is_floating(8));
    wm.remove_window(8).unwrap();
    assert!(!wm.is_managed(8));
}

#[test]
fn switching_away_ends_fullscreen() {
    let mut wm = MultiWorkspaceWM::new(screen());
    wm.add_window(WindowWithInfo::new_fullscreen(1, geom())).unwrap();
    assert_eq!(wm.get_fullscreen_window(), Some(1));
    wm.switch_workspace(0).unwrap();
    assert_eq!(wm.get_fullscreen_window(), Some(1));
    wm.switch_workspace(2).unwrap();
    assert_eq!(wm.get_fullscreen_window(), None);
    wm.switch_workspace(0).unwrap();
    assert_eq!(wm.get_fullscreen_window(), None);
    assert_eq!(wm.get_focused_window(), Some(1));
    assert_eq!(wm.switch_workspace(4), Err(WMError::WorkspaceIndexNotValid(4)));
    assert_eq!(wm.get_current_workspace_index(), 0);
    assert!(wm.get_workspace(3).is_ok());
    assert_eq!(wm.get_workspace(4).err(), Some(WMError::WorkspaceIndexNotValid(4)));
    assert_eq!(wm.get_workspace_mut(9).err(), Some(WMError::WorkspaceIndexNotValid(9)));
    wm.get_workspace_mut(0).unwrap().toggle_floating(1).unwrap();
    assert!(wm.is_floating(1));
}

#[test]
fn removing_an_unknown_window_changes_nothing() {
    let mut tiling = tiled(3);
    let before = tiling.get_windows();
    assert_eq!(tiling.remove_window(9), Err(WMError::UnknownWindow(9)));
    assert_eq!(tiling.get_windows(), before);
    let mut full = FullWM::new(screen());
    assert_eq!(full.remove_window(0), Err(WMError::UnknownWindow(0)));
    assert_eq!(full.get_windows(), Vec::<Window>::new());
    full.add_window(WindowWithInfo::new_fullscreen(1, geom())).unwrap();
    full.add_window(WindowWithInfo::new_float(2, geom())).unwrap();
    full.toggle_minimised(1).unwrap();
    let before = (full.get_windows(), full.get_window_layout(), full.get_minimised_windows());
    assert_eq!(full.remove_window(3), Err(WMError::UnknownWindow(3)));
    assert_eq!((full.get_windows(), full.get_window_layout(), full.get_minimised_windows()), before);
    let mut multi = MultiWorkspaceWM::new(screen());
    multi.add_window(WindowWithInfo::new_tiled(1, geom())).unwrap();
    assert_eq!(multi.remove_window(2), Err(WMError::UnknownWindow(2)));
    assert_eq!(multi.get_windows(), vec![1]);
    let mut simple = FullscreenWM::new(screen());
    assert_eq!(simple.remove_window(2), Err(WMError::UnknownWindow(2)));
    let mut gaps = GapsWM::new(screen());
    assert_eq!(gaps.remove_window(2), Err(WMError::UnknownWindow(2)));
    let mut floating = FloatingWM::new(screen());
    assert_eq!(floating.remove_window(2), Err(WMError::UnknownWindow(2)));
    let mut minimise = MinimiseWM::new(screen());
    assert_eq!(minimise.remove_window(2), Err(WMError::UnknownWindow(2)));
}

#[test]
fn unknown_windows_are_refused_everywhere() {
    let mut wm = FullWM::new(screen());
    wm.add_window(WindowWithInfo::new_tiled(1, geom())).unwrap();
    let unknown = Err(WMError::UnknownWindow(5));
    assert_eq!(wm.focus_window(Some(5)), unknown);
    assert_eq!(wm.swap_with_master(5), unknown);
    assert_eq!(wm.toggle_floating(5), unknown);
    assert_eq!(wm.toggle_minimised(5), unknown);
    assert_eq!(wm.toggle_fullscreen(5), unknown);
    assert_eq!(wm.set_window_geometry(5, geom()), unknown);
    assert_eq!(wm.get_window_info(5), Err(WMError::UnknownWindow(5)));
    assert_eq!(wm.get_windows(), vec![1]);
    assert_eq!(wm.get_focused_window(), Some(1));
    let mut multi = MultiWorkspaceWM::new(screen());
    assert_eq!(multi.focus_window(Some(5)), unknown);
    assert_eq!(multi.toggle_floating(5), unknown);
    assert_eq!(multi.toggle_minimised(5), unknown);
    assert_eq!(multi.toggle_fullscreen(5), unknown);
    assert_eq!(multi.set_window_geometry(5, geom()), unknown);
    assert_eq!(multi.get_window_info(5), Err(WMError::UnknownWindow(5)));
}

#[test]
fn error_descriptions() {
    assert_eq!(WMError::UnknownWindow(3).description(), "Unknown window");
    assert_eq!(WMError::AlreadyManagedWindow(3).description(), "Already managed window");
    assert_eq!(WMError::WorkspaceIndexNotValid(3).description(), "Workspace index not valid");
}

#[test]
fn tiles_share_the_right_half() {
    let wm = tiled(4);
    assert_eq!(
        wm.get_window_layout().windows,
        vec![
            (1, Geometry { x: 0, y: 0, width: 400, height: 600 }),
            (2, Geometry { x: 400, y: 0, width: 400, height: 200 }),
            (3, Geometry { x: 400, y: 200, width: 400, height: 200 }),
            (4, Geometry { x: 400, y: 400, width: 400, height: 200 }),
        ]
    );
    let mut odd = tiled(5);
    odd.resize_screen(Screen { width: 801, height: 603 });
    assert_eq!(
        odd.get_window_layout().windows,
        vec![
            (1, Geometry { x: 0, y: 0, width: 400, height: 603 }),
            (2, Geometry { x: 400, y: 0, width: 400, height: 150 }),
            (3, Geometry { x: 400, y: 150, width: 400, height: 150 }),
            (4, Geometry { x: 400, y: 300, width: 400, height: 150 }),
            (5, Geometry { x: 400, y: 450, width: 400, height: 150 }),
        ]
    );
    assert_eq!(
        odd.get_window_info(4),
        Ok(WindowWithInfo::new_tiled(4, Geometry { x: 400, y: 300, width: 400, height: 150 }))
    );
    assert_eq!(odd.get_screen(), Screen { width: 801, height: 603 });
}

#[test]
fn removing_the_master_promotes_the_next_tile() {
    let mut wm = tiled(3);
    wm.remove_window(1).unwrap();
    assert_eq!(wm.get_master_window(), Some(2));
    assert_eq!(wm.get_focused_window(), Some(3));
    wm.remove_window(3).unwrap();
    assert_eq!(wm.get_focused_window(), Some(2));
    wm.remove_window(2).unwrap();
    assert_eq!(wm.get_master_window(), None);
    assert_eq!(wm.get_focused_window(), None);
    assert_eq!(wm.get_window_layout(), WindowLayout::new());
}

#[test]
fn operations_on_an_empty_window_manager_do_nothing() {
    let mut wm = FullWM::new(screen());
    wm.cycle_focus(PrevOrNext::Next);
    wm.cycle_focus(PrevOrNext::Prev);
    wm.swap_windows(PrevOrNext::Next);
    wm.focus_window(None).unwrap();
    assert_eq!(wm.get_window_layout(), WindowLayout::new());
    assert_eq!(wm.get_master_window(), None);
    assert_eq!(wm.get_fullscreen_window(), None);
    assert_eq!(wm.get_floating_windows(), Vec::<Window>::new());
    assert_eq!(wm.get_minimised_windows(), Vec::<Window>::new());
    let mut multi = MultiWorkspaceWM::new(screen());
    multi.cycle_focus(PrevOrNext::Next);
    multi.swap_windows(PrevOrNext::Prev);
    assert_eq!(multi.get_window_layout(), WindowLayout::new());
    assert_eq!(multi.get_windows(), Vec::<Window>::new());
    assert_eq!(multi.get_screen(), screen());
}

#[test]
fn cycling_the_focus_turns_the_focus_order() {
    let mut wm = tiled(4);
    wm.cycle_focus(PrevOrNext::Next);
    assert_eq!(wm.get_windows(), vec![2, 3, 4, 1]);
    assert_eq!(wm.get_focused_window(), Some(1));
    wm.cycle_focus(PrevOrNext::Prev);
    assert_eq!(wm.get_windows(), vec![1, 2, 3, 4]);
    wm.cycle_focus(PrevOrNext::Prev);
    assert_eq!(wm.get_windows(), vec![4, 1, 2, 3]);
    assert_eq!(wm.get_focused_window(), Some(3));
    wm.focus_window(None).unwrap();
    wm.cycle_focus(PrevOrNext::Next);
    assert_eq!(wm.get_focused_window(), Some(4));
}

#[test]
fn gaps_inset_every_tile() {
    let mut wm = GapsWM::new(screen());
    assert_eq!(wm.get_gap(), 0);
    wm.add_window(WindowWithInfo::new_tiled(1, geom())).unwrap();
    wm.set_gap(5);
    assert_eq!(wm.get_gap(), 5);
    assert_eq!(
        wm.get_window_layout().windows,
        vec![(1, Geometry { x: 5, y: 5, width: 790, height: 590 })]
    );
    wm.add_window(WindowWithInfo::new_tiled(2, geom())).unwrap();
    wm.add_window(WindowWithInfo::new_tiled(3, geom())).unwrap();
    assert_eq!(
        wm.get_window_layout().windows,
        vec![
            (1, Geometry { x: 5, y: 5, width: 390, height: 590 }),
            (2, Geometry { x: 405, y: 5, width: 390, height: 290 }),
            (3, Geometry { x: 405, y: 305, width: 390, height: 290 }),
        ]
    );
    assert_eq!(
        wm.get_window_info(3),
        Ok(WindowWithInfo::new_tiled(3, Geometry { x: 400, y: 300, width: 400, height: 300 }))
    );
}

#[test]
fn opposite_directions() {
    assert_eq!(PrevOrNext::Prev.opposite(), PrevOrNext::Next);
    assert_eq!(PrevOrNext::Next.opposite(), PrevOrNext::Prev);
    assert_eq!(PrevOrNext::Next.opposite().opposite(), PrevOrNext::Next);
}

#[test]
fn window_info_constructors() {
    let g = geom();
    assert_eq!(
        WindowWithInfo::new_tiled(1, g),
        WindowWithInfo { window: 1, geometry: g, float_or_tile: FloatOrTile::Tile, fullscreen: false }
    );
    assert_eq!(
        WindowWithInfo::new_float(2, g),
        WindowWithInfo { window: 2, geometry: g, float_or_tile: FloatOrTile::Float, fullscreen: false }
    );
    assert_eq!(
        WindowWithInfo::new_fullscreen(3, g),
        WindowWithInfo { window: 3, geometry: g, float_or_tile: FloatOrTile::Tile, fullscreen: true }
    );
    assert_eq!(
        WindowWithInfo::new(4, g, FloatOrTile::Float, true),
        WindowWithInfo { window: 4, geometry: g, float_or_tile: FloatOrTile::Float, fullscreen: true }
    );
    assert_eq!(screen().to_geometry(), Geometry { x: 0, y: 0, width: 800, height: 600 });
}

fn exercise<WM>(mut wm: WM) -> Vec<Window>
where
    WM: WindowManager + TilingSupport + FloatSupport + MinimiseSupport + FullscreenSupport,
{
    assert!(wm.add_window(WindowWithInfo::new_tiled(1, geom())).is_ok());
    assert!(wm.add_window(WindowWithInfo::new_float(2, geom())).is_ok());
    assert!(wm.add_window(WindowWithInfo::new_tiled(2, geom())).is_err());
    assert!(WindowManager::is_managed(&wm, 2));
    assert!(FloatSupport::is_floating(&wm, 2));
    assert!(wm.toggle_minimised(2).is_ok());
    assert!(MinimiseSupport::is_minimised(&wm, 2));
    assert_eq!(WindowManager::get_focused_window(&wm), Some(1));
    assert!(wm.toggle_fullscreen(2).is_ok());
    assert_eq!(wm.get_fullscreen_window(), Some(2));
    assert_eq!(wm.get_window_layout().windows, vec![(2, screen().to_geometry())]);
    assert!(wm.swap_with_master(1).is_ok());
    assert_eq!(wm.get_master_window(), Some(1));
    assert_eq!(wm.get_fullscreen_window(), None);
    wm.cycle_focus(PrevOrNext::Next);
    wm.swap_windows(PrevOrNext::Next);
    assert!(wm.toggle_floating(1).is_ok());
    assert!(wm.set_window_geometry(1, screen().to_geometry()).is_ok());
    assert!(wm.focus_window(None).is_ok());
    assert!(wm.remove_window(3).is_err());
    assert_eq!(wm.get_window_info(1).ok().map(|i| i.geometry), Some(screen().to_geometry()));
    wm.resize_screen(Screen { width: 1, height: 2 });
    assert_eq!(wm.get_screen(), Screen { width: 1, height: 2 });
    wm.get_windows()
}

#[test]
fn window_managers_through_their_traits() {
    let mut full = exercise(FullWM::new(screen()));
    full.sort();
    assert_eq!(full, vec![1, 2]);
    let mut multi = exercise(<MultiWorkspaceWM as WindowManager>::new(screen()));
    multi.sort();
    assert_eq!(multi, vec![1, 2]);
}

#[test]
fn window_managers_stay_valid() {
    let mut full = FullWM::new(screen());
    assert!(full.is_valid());
    full.add_window(WindowWithInfo::new_fullscreen(1, geom())).unwrap();
    full.add_window(WindowWithInfo::new_float(2, geom())).unwrap();
    full.add_window(WindowWithInfo::new_tiled(3, geom())).unwrap();
    assert!(full.is_valid());
    full.toggle_minimised(2).unwrap();
    full.toggle_fullscreen(1).unwrap();
    assert!(full.is_valid());
    full.toggle_minimised(1).unwrap();
    full.cycle_focus(PrevOrNext::Prev);
    full.toggle_floating(3).unwrap();
    full.remove_window(2).unwrap();
    assert!(full.is_valid());
    let mut multi = MultiWorkspaceWM::new(screen());
    assert!(multi.is_valid());
    multi.add_window(WindowWithInfo::new_fullscreen(1, geom())).unwrap();
    multi.switch_workspace(3).unwrap();
    multi.add_window(WindowWithInfo::new_float(2, geom())).unwrap();
    multi.toggle_fullscreen(1).unwrap();
    assert!(multi.is_valid());
    assert!(tiled(5).is_valid());
    assert!(GapsWM::new(screen()).is_valid());
    assert!(FullscreenWM::new(screen()).is_valid());
    assert!(FloatingWM::new(screen()).is_valid());
    assert!(MinimiseWM::new(screen()).is_valid());
}

#[test]
fn broken_window_managers_are_not_valid() {
    let mut twice = tiled(2);
    twice.windows.push(1);
    assert!(!twice.is_valid());
    let mut stray_tile = tiled(2);
    stray_tile.tiles.push(7);
    assert!(!stray_tile.is_valid());
    let mut stray_info = tiled(2);
    stray_info.windows_info.insert(7, WindowWithInfo::new_tiled(7, geom()));
    assert!(!stray_info.is_valid());
    let mut wrong_info = tiled(2);
    wrong_info.windows_info.insert(1, WindowWithInfo::new_tiled(2, geom()));
    assert!(!wrong_info.is_valid());
    let mut hidden = tiled(2);
    assert!(hidden.shows_all());
    hidden.tiles.pop();
    assert!(hidden.is_valid());
    assert!(!hidden.shows_all());
    assert!(!WindowManager::is_valid(&hidden));
    let mut focus_without_window = tiled(0);
    focus_without_window.is_focus = true;
    assert!(!focus_without_window.is_valid());

    let mut floating = FloatingWM::new(screen());
    floating.add_window(WindowWithInfo::new_float(1, geom())).unwrap();
    assert!(floating.is_valid());
    assert!(floating.shows_all());
    floating.tiling_wm.tiles.push(1);
    assert!(!floating.is_valid());
    floating.tiling_wm.tiles.pop();
    floating.floats.remove(&1);
    assert!(floating.is_valid());
    assert!(!floating.shows_all());
    assert!(!WindowManager::is_valid(&floating));
    floating.floats.insert(1, geom());
    assert!(WindowManager::is_valid(&floating));
    floating.floats.insert(1, screen().to_geometry());
    assert!(!floating.is_valid());
    floating.floats.insert(1, geom());
    assert!(floating.is_valid());
    floating.floats.insert(9, geom());
    assert!(!floating.is_valid());

    let mut minimise = MinimiseWM::new(screen());
    minimise.add_window(WindowWithInfo::new_tiled(1, geom())).unwrap();
    minimise.add_window(WindowWithInfo::new_tiled(2, geom())).unwrap();
    minimise.minimised.push(1);
    assert!(!minimise.is_valid());
    minimise.minimised.clear();
    minimise.floating_wm.tiling_wm.tiles.clear();
    assert!(!minimise.is_valid());
    minimise.minimised.push(1);
    assert!(!minimise.is_valid());
    minimise.minimised.push(2);
    assert!(!minimise.is_valid());
    minimise.floating_wm.tiling_wm.is_focus = false;
    assert!(minimise.is_valid());

    let mut full = FullWM::new(screen());
    full.add_window(WindowWithInfo::new_tiled(1, geom())).unwrap();
    full.add_window(WindowWithInfo::new_tiled(2, geom())).unwrap();
    full.fullscreen_window = Some(1);
    assert!(!full.is_valid());
    full.fullscreen_window = Some(2);
    assert!(full.is_valid());
    full.fullscreen_window = Some(3);
    assert!(!full.is_valid());

    let mut multi = MultiWorkspaceWM::new(screen());
    multi.add_window(WindowWithInfo::new_tiled(1, geom())).unwrap();
    let other = multi.get_workspace_mut(2).unwrap();
    other.add_window(WindowWithInfo::new_tiled(1, geom())).unwrap();
    assert!(!multi.is_valid());
    multi.get_workspace_mut(2).unwrap().remove_window(1).unwrap();
    assert!(multi.is_valid());
    multi.get_workspace_mut(2).unwrap().add_window(WindowWithInfo::new_fullscreen(5, geom())).unwrap();
    assert!(!multi.is_valid());
    multi.get_workspace_mut(2).unwrap().toggle_fullscreen(5).unwrap();
    assert!(multi.is_valid());
    multi.get_workspace_mut(1).unwrap().resize_screen(Screen { width: 1, height: 1 });
    assert!(!multi.is_valid());
}

#[test]
fn layouts_have_to_fit_the_coordinates() {
    let mut wm = tiled(3);
    assert!(wm.can_lay_out());
    wm.resize_screen(Screen { width: u32::MAX, height: u32::MAX });
    assert!(wm.can_lay_out());
    assert_eq!(
        wm.get_window_layout().windows,
        vec![
            (1, Geometry { x: 0, y: 0, width: 2147483647, height: u32::MAX }),
            (2, Geometry { x: 2147483647, y: 0, width: 2147483647, height: 2147483647 }),
            (3, Geometry { x: 2147483647, y: 2147483647, width: 2147483647, height: 2147483647 }),
        ]
    );
    wm.add_window(WindowWithInfo::new_tiled(4, geom())).unwrap();
    assert!(!wm.can_lay_out());
    wm.resize_screen(Screen { width: u32::MAX, height: 3_000_000_000 });
    assert!(wm.can_lay_out());
    wm.add_window(WindowWithInfo::new_tiled(5, geom())).unwrap();
    assert!(!wm.can_lay_out());
    wm.resize_screen(Screen { width: 0, height: 0 });
    assert!(wm.can_lay_out());
    let mut full = FullWM::new(Screen { width: 10, height: u32::MAX });
    for w in 1..5 {
        full.add_window(WindowWithInfo::new_tiled(w, geom())).unwrap();
    }
    assert!(!full.can_lay_out());
    full.toggle_fullscreen(2).unwrap();
    assert!(full.can_lay_out());
    assert_eq!(
        full.get_window_layout().windows,
        vec![(2, Geometry { x: 0, y: 0, width: 10, height: u32::MAX })]
    );

    let mut gaps = GapsWM::new(screen());
    gaps.set_gap(500);
    assert!(gaps.can_lay_out());
    gaps.add_window(WindowWithInfo::new_tiled(1, geom())).unwrap();
    assert!(!gaps.can_lay_out());
    gaps.set_gap(300);
    assert!(gaps.can_lay_out());
    assert_eq!(
        gaps.get_window_layout().windows,
        vec![(1, Geometry { x: 300, y: 300, width: 200, height: 0 })]
    );
    gaps.add_window(WindowWithInfo::new_tiled(2, geom())).unwrap();
    assert!(!gaps.can_lay_out());
    gaps.set_gap(200);
    assert!(gaps.can_lay_out());
    gaps.add_window(WindowWithInfo::new_tiled(3, geom())).unwrap();
    assert!(!gaps.can_lay_out());
    gaps.set_gap(150);
    assert!(gaps.can_lay_out());
}

#[test]
fn tiling_window_manager_tiles_every_window() {
    let mut wm = TilingWM::new(screen());
    wm.add_window(WindowWithInfo::new_float(1, geom())).unwrap();
    let layout = wm.get_window_layout();
    assert_eq!(layout.focused_window, Some(1));
    assert_eq!(layout.windows, vec![(1, screen().to_geometry())]);
    assert_eq!(wm.get_master_window(), Some(1));
    wm.add_window(WindowWithInfo::new(2, geom(), FloatOrTile::Float, true)).unwrap();
    wm.add_window(WindowWithInfo::new_tiled(3, geom())).unwrap();
    assert_eq!(
        wm.get_window_layout().windows,
        vec![
            (1, Geometry { x: 0, y: 0, width: 400, height: 600 }),
            (2, Geometry { x: 400, y: 0, width: 400, height: 300 }),
            (3, Geometry { x: 400, y: 300, width: 400, height: 300 }),
        ]
    );
    assert!(wm.shows_all());
    assert!(WindowManager::is_valid(&wm));
    assert_eq!(
        wm.get_window_info(2),
        Ok(WindowWithInfo::new_tiled(2, Geometry { x: 400, y: 0, width: 400, height: 300 }))
    );
    wm.focus_window(Some(1)).unwrap();
    wm.swap_windows(PrevOrNext::Prev);
    let order: Vec<Window> = wm.get_window_layout().windows.iter().map(|p| p.0).collect();
    assert_eq!(order, vec![3, 2, 1]);
    wm.remove_window(2).unwrap();
    let layout = wm.get_window_layout();
    assert_eq!(layout.focused_window, Some(1));
    let mut shown: Vec<Window> = layout.windows.iter().map(|p| p.0).collect();
    shown.sort();
    let mut managed = wm.get_windows();
    managed.sort();
    assert_eq!(shown, managed);

    let mut gaps = GapsWM::new(screen());
    gaps.add_window(WindowWithInfo::new_float(1, geom())).unwrap();
    gaps.set_gap(10);
    let layout = gaps.get_window_layout();
    assert_eq!(layout.focused_window, Some(1));
    assert_eq!(layout.windows, vec![(1, Geometry { x: 10, y: 10, width: 780, height: 580 })]);
    assert!(gaps.is_valid());
    gaps.tiling_wm.tiles.clear();
    assert!(!gaps.is_valid());
}

#[test]
fn layouts_list_the_focused_window_and_no_window_twice() {
    let mut floating = FloatingWM::new(screen());
    let mut full = FullWM::new(screen());
    let mut multi = MultiWorkspaceWM::new(screen());
    let infos = [
        WindowWithInfo::new_float(1, geom()),
        WindowWithInfo::new_tiled(2, geom()),
        WindowWithInfo::new_float(3, geom()),
        WindowWithInfo::new_fullscreen(4, geom()),
        WindowWithInfo::new_tiled(5, geom()),
    ];
    let check = |layout: WindowLayout, managed: Vec<Window>| {
        let mut shown: Vec<Window> = layout.windows.iter().map(|p| p.0).collect();
        if let Some(f) = layout.focused_window {
            assert!(shown.contains(&f));
        }
        assert!(shown.iter().all(|w| managed.contains(w)));
        let n = shown.len();
        shown.sort();
        shown.dedup();
        assert_eq!(shown.len(), n);
        shown
    };
    for info in infos {
        floating.add_window(info).unwrap();
        full.add_window(info).unwrap();
        multi.add_window(info).unwrap();
        let mut managed = floating.get_windows();
        managed.sort();
        assert_eq!(check(floating.get_window_layout(), floating.get_windows()), managed);
        check(full.get_window_layout(), full.get_windows());
        check(multi.get_window_layout(), multi.get_windows());
    }
    for w in [2, 3, 1] {
        floating.toggle_floating(w).unwrap();
        floating.cycle_focus(PrevOrNext::Next);
        full.toggle_minimised(w).unwrap();
        multi.toggle_fullscreen(w).unwrap();
        let mut managed = floating.get_windows();
        managed.sort();
        assert_eq!(check(floating.get_window_layout(), floating.get_windows()), managed);
        assert!(floating.shows_all());
        check(full.get_window_layout(), full.get_windows());
        check(multi.get_window_layout(), multi.get_windows());
    }
}
