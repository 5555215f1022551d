use cplwm::backend::apply::{layout_change, FocusChange};
use cplwm::backend::ewmh::{
    state_change, update_states, AddRemoveNothing, NET_WM_STATE_ADD, NET_WM_STATE_REMOVE,
    NET_WM_STATE_TOGGLE,
};
use cplwm::backend::hints::{
    as_unsigned, center_geometry, respect_hints, valid_geometry, wants_to_float_or_tile,
    SizeHints, P_MAX_SIZE, P_MIN_SIZE, P_SIZE,
};
use cplwm::backend::input::{clean_mask, make_button, make_key, Button, Key, KeySym, LOCK_MASK};
use cplwm::backend::requests::{
    click_target, dragged_position, dragged_size, enter_target, requested_geometry,
    window_changes,
    WindowChanges, CW_HEIGHT, CW_WIDTH, CW_X, CW_Y, WINDOW_BORDER_WIDTH,
};
use cplwm::backend::window_state::WindowState;
use cplwm::types::{FloatOrTile, Geometry, Screen, WindowLayout};
use x11_dl::keysym;
use x11_dl::xlib;

fn no_hints() -> SizeHints {
    SizeHints {
        flags: 0,
        min_width: 0,
        min_height: 0,
        max_width: 0,
        max_height: 0,
        width: 0,
        height: 0,
    }
}

#[test]
fn test_make_key() {
    assert_eq!(
        Key::new(xlib::Mod4Mask | xlib::ShiftMask, keysym::XK_Return as KeySym),
        make_key(vec![xlib::Mod4Mask, xlib::ShiftMask, keysym::XK_Return])
    );
    assert_eq!(
        Key::new(xlib::Mod4Mask | xlib::ShiftMask, keysym::XK_Return as KeySym),
        make_key(vec![xlib::ShiftMask, xlib::Mod4Mask, keysym::XK_Return])
    );
    assert_eq!(Key::new(0, keysym::XK_r as KeySym), make_key(vec![keysym::XK_r]));
}

#[test]
fn test_make_button() {
    assert_eq!(
        Button::new(xlib::Mod4Mask | xlib::ShiftMask, xlib::Button1),
        make_button(vec![xlib::Mod4Mask, xlib::ShiftMask, xlib::Button1])
    );
    assert_eq!(
        Button::new(xlib::Mod4Mask | xlib::ShiftMask, xlib::Button2),
        make_button(vec![xlib::ShiftMask, xlib::Mod4Mask, xlib::Button2])
    );
    assert_eq!(Button::new(0, xlib::Button5), make_button(vec![xlib::Button5]));
}

#[test]
fn constants_match_xlib() {
    assert_eq!(P_SIZE, xlib::PSize);
    assert_eq!(P_MIN_SIZE, xlib::PMinSize);
    assert_eq!(P_MAX_SIZE, xlib::PMaxSize);
    assert_eq!(LOCK_MASK, xlib::LockMask);
    assert_eq!(CW_X, xlib::CWX);
    assert_eq!(CW_Y, xlib::CWY);
    assert_eq!(CW_WIDTH, xlib::CWWidth);
    assert_eq!(CW_HEIGHT, xlib::CWHeight);
}

#[test]
fn make_key_combines_all_modifiers() {
    assert_eq!(Key { mask: 0b1101, sym: 42 }, make_key(vec![0b0001, 0b0100, 0b1000, 42]));
    assert_eq!(Button { mask: 0b0110, button: 3 }, make_button(vec![0b0010, 0b0100, 3]));
}

#[test]
fn clean_mask_removes_both_locks() {
    assert_eq!(clean_mask(0x10, 0x10 | 0x02 | 0x40 | 0x01), 0x41);
    assert_eq!(clean_mask(0, 0xff), 0xfd);
    assert_eq!(clean_mask(0x10, 0), 0);
}

#[test]
fn window_state_numbers() {
    assert_eq!(WindowState::try_from(0), Some(WindowState::Withdrawn));
    assert_eq!(WindowState::try_from(1), Some(WindowState::Normal));
    assert_eq!(WindowState::try_from(2), None);
    assert_eq!(WindowState::try_from(3), Some(WindowState::Iconic));
    assert_eq!(WindowState::try_from(4), None);
    assert_eq!(u32::from(WindowState::Withdrawn), 0);
    assert_eq!(u32::from(WindowState::Normal), 1);
    assert_eq!(u32::from(WindowState::Iconic), 3);
    assert_eq!(i32::from(WindowState::Iconic), 3);
    assert_eq!(i32::from(WindowState::Normal), 1);
    assert_eq!(i32::from(WindowState::Withdrawn), 0);
}

#[test]
fn valid_geometries() {
    let half = u32::MAX / 2;
    assert!(valid_geometry(&Geometry { x: 0, y: 0, width: 1, height: 1 }));
    assert!(valid_geometry(&Geometry { x: -5, y: 7, width: half - 1, height: half - 1 }));
    assert!(!valid_geometry(&Geometry { x: 0, y: 0, width: 0, height: 10 }));
    assert!(!valid_geometry(&Geometry { x: 0, y: 0, width: 10, height: 0 }));
    assert!(!valid_geometry(&Geometry { x: 0, y: 0, width: half, height: 10 }));
    assert!(!valid_geometry(&Geometry { x: 0, y: 0, width: 10, height: half }));
}

#[test]
fn centering_moves_only_windows_without_position() {
    let screen = Screen { width: 800, height: 600 };
    let mut g = Geometry { x: 0, y: 0, width: 200, height: 100 };
    center_geometry(&mut g, &screen);
    assert_eq!(g, Geometry { x: 300, y: 250, width: 200, height: 100 });
    let mut placed = Geometry { x: 0, y: 1, width: 200, height: 100 };
    center_geometry(&mut placed, &screen);
    assert_eq!(placed, Geometry { x: 0, y: 1, width: 200, height: 100 });
    let mut large = Geometry { x: 0, y: 0, width: 1000, height: 601 };
    center_geometry(&mut large, &screen);
    assert_eq!(large, Geometry { x: 0, y: 0, width: 1000, height: 601 });
    let mut odd = Geometry { x: 0, y: 0, width: 799, height: 1 };
    center_geometry(&mut odd, &screen);
    assert_eq!(odd, Geometry { x: 0, y: 299, width: 799, height: 1 });
}

#[test]
fn hints_are_respected_in_order() {
    let mut g = Geometry { x: 3, y: 4, width: 100, height: 100 };
    respect_hints(&mut g, &no_hints());
    assert_eq!(g, Geometry { x: 3, y: 4, width: 100, height: 100 });

    let mut small = Geometry { x: 0, y: 0, width: 1, height: 4 };
    respect_hints(&mut small, &no_hints());
    assert_eq!(small, Geometry { x: 0, y: 0, width: 5, height: 5 });

    let min = SizeHints { flags: P_MIN_SIZE, min_width: 150, min_height: 50, ..no_hints() };
    let mut g = Geometry { x: 0, y: 0, width: 100, height: 100 };
    respect_hints(&mut g, &min);
    assert_eq!(g, Geometry { x: 0, y: 0, width: 150, height: 100 });

    let max = SizeHints { flags: P_MAX_SIZE, max_width: 60, max_height: 200, ..no_hints() };
    let mut g = Geometry { x: 0, y: 0, width: 100, height: 100 };
    respect_hints(&mut g, &max);
    assert_eq!(g, Geometry { x: 0, y: 0, width: 60, height: 100 });

    let both = SizeHints {
        flags: P_MIN_SIZE | P_MAX_SIZE,
        min_width: 150,
        min_height: 150,
        max_width: 120,
        max_height: 300,
        ..no_hints()
    };
    let mut g = Geometry { x: 0, y: 0, width: 100, height: 100 };
    respect_hints(&mut g, &both);
    assert_eq!(g, Geometry { x: 0, y: 0, width: 120, height: 150 });

    let size = SizeHints { flags: P_SIZE, width: 33, height: 0, ..no_hints() };
    let mut g = Geometry { x: 0, y: 0, width: 100, height: 100 };
    respect_hints(&mut g, &size);
    assert_eq!(g, Geometry { x: 0, y: 0, width: 33, height: 100 });

    let ignored = SizeHints { flags: 0, min_width: 500, max_width: 1, width: 7, ..no_hints() };
    let mut g = Geometry { x: 0, y: 0, width: 100, height: 100 };
    respect_hints(&mut g, &ignored);
    assert_eq!(g, Geometry { x: 0, y: 0, width: 100, height: 100 });
}

#[test]
fn negative_hints_are_read_as_unsigned() {
    assert_eq!(as_unsigned(-1), u32::MAX);
    assert_eq!(as_unsigned(i32::MIN), 0x8000_0000);
    assert_eq!(as_unsigned(17), 17);
    let min = SizeHints { flags: P_MIN_SIZE, min_width: -1, min_height: 1, ..no_hints() };
    let mut g = Geometry { x: 0, y: 0, width: 100, height: 100 };
    respect_hints(&mut g, &min);
    assert_eq!(g, Geometry { x: 0, y: 0, width: u32::MAX, height: 100 });
}

#[test]
fn floating_is_decided_by_kind_and_fixed_size() {
    let fixed = SizeHints {
        flags: P_MIN_SIZE | P_MAX_SIZE,
        min_width: 10,
        min_height: 20,
        max_width: 10,
        max_height: 20,
        ..no_hints()
    };
    let loose = SizeHints { max_height: 21, ..fixed };
    let unflagged = SizeHints { flags: P_MIN_SIZE, ..fixed };
    assert_eq!(wants_to_float_or_tile(true, false, None), FloatOrTile::Float);
    assert_eq!(wants_to_float_or_tile(false, true, None), FloatOrTile::Float);
    assert_eq!(wants_to_float_or_tile(false, false, None), FloatOrTile::Tile);
    assert_eq!(wants_to_float_or_tile(false, false, Some(fixed)), FloatOrTile::Float);
    assert_eq!(wants_to_float_or_tile(false, false, Some(loose)), FloatOrTile::Tile);
    assert_eq!(wants_to_float_or_tile(false, false, Some(unflagged)), FloatOrTile::Tile);
    assert_eq!(wants_to_float_or_tile(false, false, Some(no_hints())), FloatOrTile::Tile);
}

#[test]
fn state_changes_follow_the_action() {
    assert_eq!(state_change(NET_WM_STATE_ADD, None), AddRemoveNothing::Add);
    assert_eq!(state_change(NET_WM_STATE_TOGGLE, None), AddRemoveNothing::Add);
    assert_eq!(state_change(NET_WM_STATE_REMOVE, None), AddRemoveNothing::DoNothing);
    assert_eq!(state_change(NET_WM_STATE_ADD, Some(2)), AddRemoveNothing::DoNothing);
    assert_eq!(state_change(NET_WM_STATE_TOGGLE, Some(2)), AddRemoveNothing::Remove(2));
    assert_eq!(state_change(NET_WM_STATE_REMOVE, Some(0)), AddRemoveNothing::Remove(0));
    assert_eq!(state_change(7, None), AddRemoveNothing::DoNothing);
    assert_eq!(state_change(7, Some(1)), AddRemoveNothing::DoNothing);
    assert!(AddRemoveNothing::DoNothing.is_do_nothing());
    assert!(!AddRemoveNothing::Add.is_do_nothing());
    assert!(!AddRemoveNothing::Remove(0).is_do_nothing());
}

#[test]
fn states_are_updated() {
    let mut states = vec![5, 9];
    assert!(update_states(true, 7, &mut states, NET_WM_STATE_ADD));
    assert_eq!(states, vec![5, 9, 7]);
    assert!(!update_states(true, 7, &mut states, NET_WM_STATE_ADD));
    assert_eq!(states, vec![5, 9, 7]);
    assert!(update_states(true, 5, &mut states, NET_WM_STATE_TOGGLE));
    assert_eq!(states, vec![9, 7]);
    assert!(update_states(true, 5, &mut states, NET_WM_STATE_TOGGLE));
    assert_eq!(states, vec![9, 7, 5]);
    assert!(update_states(true, 7, &mut states, NET_WM_STATE_REMOVE));
    assert_eq!(states, vec![9, 5]);
    assert!(!update_states(true, 7, &mut states, NET_WM_STATE_REMOVE));
    assert!(!update_states(false, 9, &mut states, NET_WM_STATE_REMOVE));
    assert_eq!(states, vec![9, 5]);
    let mut twice = vec![4, 4];
    assert!(update_states(true, 4, &mut twice, NET_WM_STATE_REMOVE));
    assert_eq!(twice, vec![4]);
}

#[test]
fn clicks_focus_the_window_under_the_pointer() {
    assert_eq!(click_target(1, 1, 0), None);
    assert_eq!(click_target(1, 1, 8), Some(8));
    assert_eq!(click_target(1, 5, 8), Some(5));
    assert_eq!(click_target(1, 5, 0), Some(5));
}

#[test]
fn requested_geometry_takes_what_is_given() {
    let current = Geometry { x: 1, y: 2, width: 30, height: 40 };
    assert_eq!(requested_geometry(current, 0, 9, 9, 9, 9), current);
    assert_eq!(
        requested_geometry(current, CW_X | CW_HEIGHT, -7, 9, 9, 100),
        Geometry { x: -7, y: 2, width: 30, height: 100 + 2 * WINDOW_BORDER_WIDTH }
    );
    assert_eq!(
        requested_geometry(current, CW_X | CW_Y | CW_WIDTH | CW_HEIGHT, 5, 6, 7, 8),
        Geometry { x: 5, y: 6, width: 9, height: 10 }
    );
}

#[test]
fn window_changes_take_off_the_border() {
    assert_eq!(
        window_changes(Geometry { x: 5, y: -6, width: 100, height: 50 }),
        Some(WindowChanges { x: 5, y: -6, width: 98, height: 48, border_width: 1 })
    );
    assert_eq!(window_changes(Geometry { x: 5, y: 6, width: 0, height: 50 }), None);
    assert_eq!(
        window_changes(Geometry { x: 0, y: 0, width: 2, height: 2 }),
        Some(WindowChanges { x: 0, y: 0, width: 0, height: 0, border_width: 1 })
    );
}

#[test]
fn dragging_moves_and_resizes() {
    let original = Geometry { x: 10, y: 20, width: 100, height: 50 };
    assert_eq!(
        dragged_position(original, 5, 5, 8, 1),
        Geometry { x: 13, y: 16, width: 100, height: 50 }
    );
    assert_eq!(
        dragged_size(original, 100, 50, 90, 70),
        Geometry { x: 10, y: 20, width: 90, height: 70 }
    );
    assert_eq!(dragged_position(original, 0, 0, 0, 0), original);
    assert_eq!(dragged_size(original, 3, 4, 3, 4), original);
}

#[test]
fn layout_change_between_layouts() {
    let a = Geometry { x: 0, y: 0, width: 400, height: 600 };
    let b = Geometry { x: 400, y: 0, width: 400, height: 600 };
    let full = Geometry { x: 0, y: 0, width: 800, height: 600 };
    let prev = WindowLayout { focused_window: Some(2), windows: vec![(1, a), (2, b)] };
    let new = WindowLayout { focused_window: Some(1), windows: vec![(1, full)] };
    let change = layout_change(&prev, &new);
    assert_eq!(change.hide, vec![2]);
    assert_eq!(change.reveal, Vec::<u64>::new());
    assert_eq!(change.focus, FocusChange::Move(2, 1));
    assert_eq!(change.restack, Some(vec![1]));
    assert_eq!(change.geometries, vec![(1, full)]);

    let back = layout_change(&new, &prev);
    assert_eq!(back.hide, Vec::<u64>::new());
    assert_eq!(back.reveal, vec![2]);
    assert_eq!(back.focus, FocusChange::Move(1, 2));
    assert_eq!(back.restack, Some(vec![1, 2]));
    assert_eq!(back.geometries, vec![(1, a), (2, b)]);
}

#[test]
fn layout_change_without_change() {
    let a = Geometry { x: 0, y: 0, width: 400, height: 600 };
    let layout = WindowLayout { focused_window: Some(1), windows: vec![(1, a), (2, a)] };
    let change = layout_change(&layout, &layout);
    assert_eq!(change.hide, Vec::<u64>::new());
    assert_eq!(change.reveal, Vec::<u64>::new());
    assert_eq!(change.focus, FocusChange::Keep);
    assert_eq!(change.restack, None);
    assert_eq!(change.geometries, Vec::<(u64, Geometry)>::new());
    let empty = layout_change(&WindowLayout::new(), &WindowLayout::new());
    assert_eq!(empty.focus, FocusChange::Keep);
    assert_eq!(empty.restack, None);
}

#[test]
fn layout_change_of_focus_and_order() {
    let a = Geometry { x: 0, y: 0, width: 400, height: 600 };
    let b = Geometry { x: 400, y: 0, width: 400, height: 600 };
    let prev = WindowLayout { focused_window: None, windows: vec![(1, a), (2, b)] };
    let swapped = WindowLayout { focused_window: Some(2), windows: vec![(2, a), (1, b)] };
    let change = layout_change(&prev, &swapped);
    assert_eq!(change.hide, Vec::<u64>::new());
    assert_eq!(change.reveal, Vec::<u64>::new());
    assert_eq!(change.focus, FocusChange::Focus(2));
    assert_eq!(change.restack, Some(vec![2, 1]));
    assert_eq!(change.geometries, vec![(2, a), (1, b)]);
    let unfocused = WindowLayout { focused_window: None, windows: vec![(2, a), (1, b)] };
    let change = layout_change(&swapped, &unfocused);
    assert_eq!(change.focus, FocusChange::Unfocus(2));
    assert_eq!(change.restack, None);
    assert_eq!(change.geometries, Vec::<(u64, Geometry)>::new());
    let from_empty = layout_change(&WindowLayout::new(), &prev);
    assert_eq!(from_empty.reveal, vec![1, 2]);
    assert_eq!(from_empty.restack, Some(vec![1, 2]));
    assert_eq!(from_empty.geometries, vec![(1, a), (2, b)]);
}

#[test]
fn entering_a_window_focuses_it() {
    assert_eq!(enter_target(None, 1, 5, true), Some(5));
    assert_eq!(enter_target(Some(4), 1, 5, true), Some(5));
    assert_eq!(enter_target(Some(5), 1, 5, true), None);
    assert_eq!(enter_target(Some(4), 1, 1, true), None);
    assert_eq!(enter_target(None, 1, 1, true), None);
    assert_eq!(enter_target(None, 1, 5, false), None);
    assert_eq!(enter_target(Some(4), 1, 5, false), None);
}
