use cplwm::workspaces::MultiWorkspaceWM;
use cplwm::types::{Geometry, MAX_WORKSPACE_INDEX, Screen, WindowWithInfo};

fn screen() -> Screen {
    Screen { width: 800, height: 600 }
}

fn screen_geom() -> Geometry {
    Geometry { x: 0, y: 0, width: 800, height: 600 }
}

fn some_geom() -> Geometry {
    Geometry { x: 10, y: 10, width: 100, height: 100 }
}

#[test]
fn g_multiple_workspaces_test_adding_and_removing_some_windows() {
    let mut wm = MultiWorkspaceWM::new(screen());
    assert_eq!(wm.get_current_workspace_index(), 0);
    wm.switch_workspace(1).unwrap();
    assert_eq!(wm.get_current_workspace_index(), 1);
    assert!(wm.switch_workspace(MAX_WORKSPACE_INDEX + 1).is_err());
    assert!(wm.get_workspace_mut(MAX_WORKSPACE_INDEX + 1).is_err());
    wm.add_window(WindowWithInfo::new_tiled(1, some_geom())).unwrap();
    assert_eq!(wm.get_focused_window(), Some(1));
    wm.switch_workspace(0).unwrap();
    assert_eq!(wm.get_focused_window(), None);
    wm.switch_workspace(1).unwrap();
    assert_eq!(wm.get_focused_window(), Some(1));
    wm.switch_workspace(0).unwrap();
    wm.add_window(WindowWithInfo::new_tiled(2, some_geom())).unwrap();
    assert_eq!(wm.get_windows(), vec![2, 1]);
    wm.switch_workspace(1).unwrap();
    let res = wm.add_window(WindowWithInfo::new_tiled(2, some_geom()));
    assert!(res.is_err());
    wm.remove_window(2).unwrap();
    assert!(!wm.is_managed(2));
    wm.remove_window(1).unwrap();
    assert!(!wm.is_managed(1));
}

#[test]
fn g_multiple_workspaces_test_focusing_some_windows() {
    let mut wm = MultiWorkspaceWM::new(screen());
    let wi = WindowWithInfo::new_float(1, some_geom());
    wm.add_window(wi).unwrap();
    wm.switch_workspace(1).unwrap();
    assert_eq!(wm.get_window_info(1).unwrap(), wi);
    wm.add_window(WindowWithInfo::new_float(2, some_geom())).unwrap();
    wm.focus_window(Some(1)).unwrap();
    assert_eq!(wm.get_focused_window(), Some(1));
    assert_eq!(wm.get_current_workspace_index(), 0);
    wm.focus_window(None).unwrap();
    assert_eq!(wm.get_focused_window(), None);
    assert_eq!(wm.get_current_workspace_index(), 0);
}

#[test]
fn g_multiple_workspaces_test_floating_windows() {
    let mut wm = MultiWorkspaceWM::new(screen());
    wm.add_window(WindowWithInfo::new_float(1, some_geom())).unwrap();
    wm.switch_workspace(1).unwrap();
    wm.add_window(WindowWithInfo::new_float(2, some_geom())).unwrap();
    assert_eq!(wm.get_floating_windows(), vec![1, 2]);
    wm.toggle_floating(1).unwrap();
    assert!(!wm.is_floating(1));
    wm.set_window_geometry(2, screen_geom()).unwrap();
    assert_eq!(wm.get_window_info(2).unwrap().geometry, screen_geom());
}

#[test]
fn g_multiple_workspaces_minimise_some_windows() {
    let mut wm = MultiWorkspaceWM::new(screen());
    wm.add_window(WindowWithInfo::new_float(1, some_geom())).unwrap();
    wm.switch_workspace(1).unwrap();
    wm.add_window(WindowWithInfo::new_float(2, some_geom())).unwrap();
    wm.toggle_minimised(1).unwrap();
    wm.toggle_minimised(2).unwrap();
    assert_eq!(wm.get_minimised_windows(), vec![1, 2]);
    assert_eq!(wm.get_focused_window(), None);
    wm.toggle_minimised(1).unwrap();
    assert_eq!(wm.get_current_workspace_index(), 0);
    assert_eq!(wm.get_focused_window(), Some(1));
}

#[test]
fn g_multiple_workspaces_focus_fullscreen_windows() {
    let mut wm = MultiWorkspaceWM::new(screen());
    wm.add_window(WindowWithInfo::new_fullscreen(1, some_geom())).unwrap();
    wm.toggle_fullscreen(1).unwrap();
    assert_eq!(wm.get_fullscreen_window(), None);
    wm.switch_workspace(1).unwrap();
    wm.toggle_fullscreen(1).unwrap();
    assert_eq!(wm.get_focused_window(), Some(1));
    assert_eq!(wm.get_fullscreen_window(), Some(1));
    assert_eq!(wm.get_current_workspace_index(), 0);
    wm.add_window(WindowWithInfo::new_fullscreen(2, some_geom())).unwrap();
    assert_eq!(wm.get_focused_window(), Some(2));
    wm.toggle_minimised(2).unwrap();
    assert_eq!(wm.get_focused_window(), Some(1));
    wm.switch_workspace(1).unwrap();
    wm.toggle_minimised(2).unwrap();
    assert_eq!(wm.get_fullscreen_window(), Some(2));
}
