use cplwm::minimise::MinimiseWM;
use cplwm::types::{Geometry, PrevOrNext, Screen, Window, WindowLayout, WindowWithInfo};

fn screen() -> Screen {
    Screen { width: 800, height: 600 }
}

fn resized() -> Screen {
    Screen { width: 1024, height: 768 }
}

fn screen_geom() -> Geometry {
    Geometry { x: 0, y: 0, width: 800, height: 600 }
}

fn some_geom() -> Geometry {
    Geometry { x: 10, y: 10, width: 100, height: 100 }
}

#[test]
fn d_minimising_windows_test_adding_and_removing_some_windows() {
    let mut wm = MinimiseWM::new(screen());
    assert_eq!(WindowLayout::new(), wm.get_window_layout());
    wm.add_window(WindowWithInfo::new_tiled(1, some_geom())).unwrap();
    assert!(wm.is_managed(1));
    assert_eq!(vec![1], wm.get_windows());
    let wl1 = wm.get_window_layout();
    assert_eq!(Some(1), wl1.focused_window);
    assert_eq!(vec![(1, screen_geom())], wl1.windows);
    wm.add_window(WindowWithInfo::new_tiled(2, some_geom())).unwrap();
    assert!(wm.is_managed(2));
    assert_eq!(vec![1, 2], wm.get_windows());
    let wl2 = wm.get_window_layout();
    assert_eq!(Some(2), wl2.focused_window);
    let two_tiles_layout: Vec<(Window, Geometry)> = vec![
        (1, Geometry { x: 0, y: 0, width: 400, height: 600 }),
        (2, Geometry { x: 400, y: 0, width: 400, height: 600 }),
    ];
    assert_eq!(two_tiles_layout, wl2.windows);
    wm.remove_window(2).unwrap();
    assert!(!wm.is_managed(2));
    assert_eq!(vec![1], wm.get_windows());
    let wl3 = wm.get_window_layout();
    assert_eq!(Some(1), wl3.focused_window);
    assert_eq!(vec![(1, screen_geom())], wl3.windows);
    wm.add_window(WindowWithInfo::new_tiled(2, some_geom())).unwrap();
    wm.add_window(WindowWithInfo::new_float(3, some_geom())).unwrap();
    let mixed_layout: Vec<(Window, Geometry)> = vec![
        (1, Geometry { x: 0, y: 0, width: 400, height: 600 }),
        (2, Geometry { x: 400, y: 0, width: 400, height: 600 }),
        (3, some_geom()),
    ];
    let wl4 = wm.get_window_layout();
    assert_eq!(mixed_layout, wl4.windows);
    wm.remove_window(2).unwrap();
    let two_windows_layout: Vec<(Window, Geometry)> = vec![
        (1, Geometry { x: 0, y: 0, width: 800, height: 600 }),
        (3, some_geom()),
    ];
    assert_eq!(vec![1, 3], wm.get_windows());
    let wl5 = wm.get_window_layout();
    assert_eq!(two_windows_layout, wl5.windows);
    wm.resize_screen(resized());
    let screen = wm.get_screen();
    assert_eq!(resized(), screen);
}

#[test]
fn d_minimising_windows_test_focusing_some_windows() {
    let mut wm = MinimiseWM::new(screen());
    wm.add_window(WindowWithInfo::new_tiled(1, some_geom())).unwrap();
    let res1 = wm.focus_window(None);
    assert!(res1.is_ok());
    assert_eq!(wm.get_focused_window(), None);
    let res2 = wm.focus_window(Some(2));
    assert!(res2.is_err());
    wm.cycle_focus(PrevOrNext::Prev);
    assert_eq!(wm.get_focused_window(), Some(1));
    wm.add_window(WindowWithInfo::new_float(2, some_geom())).unwrap();
    wm.cycle_focus(PrevOrNext::Prev);
    assert_eq!(wm.get_focused_window(), Some(1));
    wm.cycle_focus(PrevOrNext::Prev);
    assert_eq!(wm.get_focused_window(), Some(2));
    wm.add_window(WindowWithInfo::new_tiled(3, some_geom())).unwrap();
    wm.cycle_focus(PrevOrNext::Prev);
    assert_eq!(wm.get_focused_window(), Some(2));
    wm.cycle_focus(PrevOrNext::Next);
    assert_eq!(wm.get_focused_window(), Some(3));
    wm.remove_window(2).unwrap();
    assert_eq!(vec![1, 3], wm.get_windows());
    wm.cycle_focus(PrevOrNext::Next);
    assert_eq!(wm.get_focused_window(), Some(1));
    wm.remove_window(1).unwrap();
    assert_eq!(vec![3], wm.get_windows());
    assert_eq!(wm.get_focused_window(), Some(3));
}

#[test]
fn d_minimising_windows_test_swapping_some_windows() {
    let mut wm = MinimiseWM::new(screen());
    wm.add_window(WindowWithInfo::new_tiled(1, some_geom())).unwrap();
    let master1 = wm.get_master_window();
    assert_eq!(master1, Some(1));
    wm.add_window(WindowWithInfo::new_tiled(2, some_geom())).unwrap();
    let master2 = wm.get_master_window();
    assert_eq!(master2, Some(1));
    wm.swap_with_master(2).unwrap();
    let master3 = wm.get_master_window();
    assert_eq!(master3, Some(2));
    assert_eq!(wm.get_focused_window(), Some(2));
    assert!(wm.swap_with_master(3).is_err());
    wm.add_window(WindowWithInfo::new_tiled(3, some_geom())).unwrap();
    wm.focus_window(None).unwrap();
    wm.swap_with_master(1).unwrap();
    assert_eq!(wm.get_focused_window(), Some(1));
    wm.focus_window(Some(2)).unwrap();
    wm.swap_windows(PrevOrNext::Prev);
    let master4 = wm.get_master_window();
    assert_eq!(master4, Some(2));
    assert_eq!(wm.get_focused_window(), Some(2));
    wm.swap_windows(PrevOrNext::Next);
    let master5 = wm.get_master_window();
    assert_eq!(master5, Some(1));
    wm.focus_window(None).unwrap();
    wm.swap_windows(PrevOrNext::Prev);
    assert_eq!(wm.get_focused_window(), None);
    let master6 = wm.get_master_window();
    assert_eq!(master6, Some(1));
}

#[test]
fn d_minimising_windows_test_floating_windows() {
    let mut wm = MinimiseWM::new(screen());
    wm.add_window(WindowWithInfo::new_tiled(1, some_geom())).unwrap();
    wm.add_window(WindowWithInfo::new_float(2, some_geom())).unwrap();
    assert!(wm.is_floating(2));
    assert_eq!(vec![2], wm.get_floating_windows());
    assert!(!wm.is_floating(1));
    wm.toggle_floating(1).unwrap();
    assert!(wm.is_floating(1));
    assert_eq!(2, wm.get_floating_windows().len());
    wm.toggle_floating(2).unwrap();
    assert_eq!(vec![1], wm.get_floating_windows());
    assert_eq!(Some(2), wm.get_master_window());
    assert!(wm.set_window_geometry(0, some_geom()).is_err());
    wm.toggle_floating(2).unwrap();
    wm.set_window_geometry(2, screen_geom()).unwrap();
    let wl1 = wm.get_window_layout();
    let two_windows_layout: Vec<(Window, Geometry)> = vec![
        (1, some_geom()),
        (2, screen_geom()),
    ];
    assert_eq!(two_windows_layout, wl1.windows);
}

#[test]
fn d_minimising_windows_minimise_some_windows() {
    let mut wm = MinimiseWM::new(screen());
    wm.add_window(WindowWithInfo::new_float(1, some_geom())).unwrap();
    let wl1 = wm.get_window_layout();
    wm.add_window(WindowWithInfo::new_float(2, some_geom())).unwrap();
    let res = wm.toggle_minimised(3);
    assert!(res.is_err());
    let wl2 = wm.get_window_layout();
    wm.toggle_minimised(2).unwrap();
    assert_eq!(vec![2], wm.get_minimised_windows());
    assert_eq!(wl1, wm.get_window_layout());
    wm.toggle_minimised(2).unwrap();
    assert_eq!(wl2, wm.get_window_layout());
    wm.remove_window(2).unwrap();
    wm.toggle_minimised(1).unwrap();
    assert_eq!(wm.get_focused_window(), None);
    wm.toggle_minimised(1).unwrap();
    assert_eq!(wl1, wm.get_window_layout());
    wm.toggle_minimised(1).unwrap();
    wm.remove_window(1).unwrap();
    assert_eq!(0, wm.get_windows().len());
    wm.add_window(WindowWithInfo::new_tiled(1, some_geom())).unwrap();
    wm.add_window(WindowWithInfo::new_tiled(2, some_geom())).unwrap();
    let wl3 = wm.get_window_layout();
    wm.add_window(WindowWithInfo::new_tiled(3, some_geom())).unwrap();
    wm.toggle_minimised(3).unwrap();
    assert_eq!(wl3, wm.get_window_layout());
    wm.add_window(WindowWithInfo::new_float(4, some_geom())).unwrap();
    let wl4 = wm.get_window_layout();
    wm.toggle_minimised(4).unwrap();
    assert_eq!(wl3, wm.get_window_layout());
    assert_eq!(vec![3, 4], wm.get_minimised_windows());
    wm.focus_window(Some(4)).unwrap();
    assert_eq!(wl4, wm.get_window_layout());
    wm.cycle_focus(PrevOrNext::Prev);
    wm.cycle_focus(PrevOrNext::Prev);
    assert_eq!(Some(3), wm.get_focused_window());
}

#[test]
fn d_minimising_windows_swap_minimised_tiled_windows() {
    let mut wm = MinimiseWM::new(screen());
    wm.add_window(WindowWithInfo::new_tiled(1, some_geom())).unwrap();
    wm.add_window(WindowWithInfo::new_tiled(2, some_geom())).unwrap();
    let wl1 = wm.get_window_layout();
    wm.toggle_minimised(1).unwrap();
    wm.swap_with_master(1).unwrap();
    wm.focus_window(Some(2)).unwrap();
    assert_eq!(wl1, wm.get_window_layout());
}

#[test]
fn d_minimising_windows_minimise_floating_windows() {
    let mut wm = MinimiseWM::new(screen());
    wm.add_window(WindowWithInfo::new_float(1, some_geom())).unwrap();
    wm.add_window(WindowWithInfo::new_tiled(2, some_geom())).unwrap();
    let wl1 = wm.get_window_layout();
    wm.toggle_floating(2).unwrap();
    wm.toggle_minimised(2).unwrap();
    assert_eq!(vec![1], wm.get_floating_windows());
    wm.toggle_floating(2).unwrap();
    wm.focus_window(Some(2)).unwrap();
    assert_eq!(wl1, wm.get_window_layout());
}
