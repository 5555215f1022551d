use cplwm::fullscreen_wm::FullscreenWM;
use cplwm::types::{Geometry, PrevOrNext, Screen, WindowLayout, WindowWithInfo};

fn screen() -> Screen {
    Screen { width: 800, height: 600 }
}

fn resized() -> Screen {
    Screen { width: 1024, height: 768 }
}

fn screen_geom() -> Geometry {
    Geometry { x: 0, y: 0, width: 800, height: 600 }
}

fn some_geom() -> Geometry {
    Geometry { x: 10, y: 10, width: 100, height: 100 }
}

#[test]
fn a_fullscreen_wm_test_adding_and_removing_some_windows() {
    let mut wm = FullscreenWM::new(screen());
    assert_eq!(WindowLayout::new(), wm.get_window_layout());
    wm.add_window(WindowWithInfo::new_tiled(1, some_geom())).unwrap();
    assert!(wm.is_managed(1));
    assert_eq!(vec![1], wm.get_windows());
    let wl1 = wm.get_window_layout();
    assert_eq!(Some(1), wl1.focused_window);
    assert_eq!(vec![(1, screen_geom())], wl1.windows);
    wm.add_window(WindowWithInfo::new_tiled(2, some_geom())).unwrap();
    assert!(wm.is_managed(2));
    assert_eq!(vec![1, 2], wm.get_windows());
    let wl2 = wm.get_window_layout();
    assert_eq!(Some(2), wl2.focused_window);
    assert_eq!(vec![(2, screen_geom())], wl2.windows);
    wm.remove_window(2).unwrap();
    assert!(!wm.is_managed(2));
    assert_eq!(vec![1], wm.get_windows());
    let wl3 = wm.get_window_layout();
    assert_eq!(Some(1), wl3.focused_window);
    assert_eq!(vec![(1, screen_geom())], wl3.windows);
    let wwi = wm.get_window_info(1);
    assert_eq!(WindowWithInfo::new_tiled(1, screen_geom()), wwi.unwrap());
    wm.resize_screen(resized());
    let screen = wm.get_screen();
    assert_eq!(resized(), screen);
}

#[test]
fn a_fullscreen_wm_test_focusing_some_windows() {
    let mut wm = FullscreenWM::new(screen());
    wm.add_window(WindowWithInfo::new_tiled(1, some_geom())).unwrap();
    let res1 = wm.focus_window(None);
    assert!(res1.is_ok());
    assert_eq!(wm.get_focused_window(), None);
    let res2 = wm.focus_window(Some(2));
    assert!(res2.is_err());
    wm.cycle_focus(PrevOrNext::Prev);
    assert_eq!(wm.get_focused_window(), Some(1));
    wm.add_window(WindowWithInfo::new_tiled(2, some_geom())).unwrap();
    wm.cycle_focus(PrevOrNext::Prev);
    assert_eq!(wm.get_focused_window(), Some(1));
    wm.cycle_focus(PrevOrNext::Prev);
    assert_eq!(wm.get_focused_window(), Some(2));
    wm.add_window(WindowWithInfo::new_tiled(3, some_geom())).unwrap();
    wm.cycle_focus(PrevOrNext::Prev);
    assert_eq!(wm.get_focused_window(), Some(2));
    wm.cycle_focus(PrevOrNext::Next);
    assert_eq!(wm.get_focused_window(), Some(3));
}
