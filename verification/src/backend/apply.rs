//! What has to change on the screen between two layouts.

use vstd::prelude::*;
use crate::types::{Geometry, lists, Window, WindowLayout};

verus! {

/// How the focus changes between two layouts.
#[derive(Copy, Clone, PartialEq, Eq, Debug, Structural)]
pub enum FocusChange {
    /// The focus stays where it is.
    Keep,
    /// The window loses the focus, and no window gets it.
    Unfocus(Window),
    /// The window gets the focus, which no window had.
    Focus(Window),
    /// The first window loses the focus and the second one gets it.
    Move(Window, Window),
}

/// What has to change on the screen to get from one layout to the next.
#[derive(Clone, PartialEq, Eq, Debug)]
pub struct LayoutChange {
    /// The windows to hide, in the stacking order that they had.
    pub hide: Vec<Window>,
    /// The windows to reveal, in the stacking order that they get.
    pub reveal: Vec<Window>,
    /// How the focus changes.
    pub focus: FocusChange,
    /// The new stacking order, bottom window first, if the windows have to
    /// be stacked anew.
    pub restack: Option<Vec<Window>>,
    /// The windows that have to be moved or resized, with their new
    /// geometry.
    pub geometries: Vec<(Window, Geometry)>,
}

/// The windows that a layout places, in stacking order.
pub open spec fn stack(windows: Seq<(Window, Geometry)>) -> Seq<Window> {
    windows.map_values(|p: (Window, Geometry)| p.0)
}

/// The windows that `windows` places and `others` does not, in the order of
/// `windows`.
pub open spec fn missing_from(windows: Seq<(Window, Geometry)>, others: Seq<(Window, Geometry)>)
    -> Seq<Window>
    decreases windows.len(),
{
    if windows.len() == 0 {
        Seq::empty()
    } else {
        let rest = missing_from(windows.drop_last(), others);
        if lists(others, windows.last().0) {
            rest
        } else {
            rest.push(windows.last().0)
        }
    }
}

/// The geometry that `windows` gives the window `w` where it first places
/// it.
pub open spec fn place_of(windows: Seq<(Window, Geometry)>, w: Window) -> Option<Geometry>
    decreases windows.len(),
{
    if windows.len() == 0 {
        None
    } else {
        match place_of(windows.drop_last(), w) {
            Some(g) => Some(g),
            None => if windows.last().0 == w {
                Some(windows.last().1)
            } else {
                None
            },
        }
    }
}

/// The places of `windows` that `before` does not give to the same
/// windows, in the order of `windows`.
pub open spec fn moved(windows: Seq<(Window, Geometry)>, before: Seq<(Window, Geometry)>) -> Seq<
    (Window, Geometry),
>
    decreases windows.len(),
{
    if windows.len() == 0 {
        Seq::empty()
    } else {
        let rest = moved(windows.drop_last(), before);
        if place_of(before, windows.last().0) == Some(windows.last().1) {
            rest
        } else {
            rest.push(windows.last())
        }
    }
}

/// How the focus changes from `before` to `after`.
pub open spec fn focus_change(before: Option<Window>, after: Option<Window>) -> FocusChange {
    match (before, after) {
        (Some(w1), Some(w2)) => if w1 != w2 {
            FocusChange::Move(w1, w2)
        } else {
            FocusChange::Keep
        },
        (Some(w), None) => FocusChange::Unfocus(w),
        (None, Some(w)) => FocusChange::Focus(w),
        (None, None) => FocusChange::Keep,
    }
}

/// A layout places a window exactly if it gives it a place.
pub proof fn lemma_place_of(windows: Seq<(Window, Geometry)>, w: Window)
    ensures
        place_of(windows, w).is_some() <==> lists(windows, w),
        windows.len() > 0 && place_of(windows.take(windows.len() - 1), w).is_some() ==> place_of(
            windows,
            w,
        ) == place_of(windows.take(windows.len() - 1), w),
    decreases windows.len(),
{
    if windows.len() > 0 {
        let init = windows.drop_last();
        assert(windows.take(windows.len() - 1) =~= init);
        lemma_place_of(init, w);
        if lists(windows, w) {
            let i = choose|i: int| 0 <= i < windows.len() && (#[trigger] windows[i]).0 == w;
            if i < init.len() {
                assert(init[i].0 == w);
            }
        }
        if lists(init, w) {
            let i = choose|i: int| 0 <= i < init.len() && (#[trigger] init[i]).0 == w;
            assert(windows[i].0 == w);
        }
        if windows.last().0 == w {
            assert(windows[windows.len() - 1].0 == w);
        }
    }
}

/// The windows to hide are those that only the old layout places, and the
/// windows to reveal are those that only the new one places.
pub proof fn lemma_missing_from(
    windows: Seq<(Window, Geometry)>,
    others: Seq<(Window, Geometry)>,
    w: Window,
)
    ensures
        missing_from(windows, others).contains(w) <==> lists(windows, w) && !lists(others, w),
    decreases windows.len(),
{
    if windows.len() > 0 {
        let init = windows.drop_last();
        let rest = missing_from(init, others);
        let all = missing_from(windows, others);
        lemma_missing_from(init, others, w);
        if all.contains(w) {
            let k = choose|k: int| 0 <= k < all.len() && all[k] == w;
            if k < rest.len() {
                assert(rest[k] == w);
                assert(rest.contains(w));
                let i = choose|i: int| 0 <= i < init.len() && (#[trigger] init[i]).0 == w;
                assert(windows[i].0 == w);
            } else {
                assert(windows[windows.len() - 1].0 == w);
            }
        }
        if lists(windows, w) && !lists(others, w) {
            let i = choose|i: int| 0 <= i < windows.len() && (#[trigger] windows[i]).0 == w;
            if i < init.len() {
                assert(init[i].0 == w);
                assert(rest.contains(w));
                let k = choose|k: int| 0 <= k < rest.len() && rest[k] == w;
                assert(all[k] == w);
            } else {
                assert(all[all.len() - 1] == w);
            }
        }
    }
}

/// Return the geometry that `windows` gives the window `w` where it first
/// places it.
fn find_place(windows: &Vec<(Window, Geometry)>, w: Window) -> (place: Option<Geometry>)
    ensures
        place == place_of(windows@, w),
{
    let mut i: usize = 0;
    assert(windows@.take(0) =~= Seq::<(Window, Geometry)>::empty());
    while i < windows.len()
        invariant
            i <= windows@.len(),
            place_of(windows@.take(i as int), w).is_none(),
        decreases windows@.len() - i,
    {
        assert(windows@.take(i + 1).drop_last() =~= windows@.take(i as int));
        if windows[i].0 == w {
            proof {
                lemma_place_grows(windows@, i + 1, w);
            }
            return Some(windows[i].1);
        }
        i = i + 1;
    }
    assert(windows@.take(windows@.len() as int) =~= windows@);
    None
}

/// A place that is found in a prefix of a layout is the place in the whole
/// layout.
proof fn lemma_place_grows(windows: Seq<(Window, Geometry)>, n: int, w: Window)
    requires
        0 <= n <= windows.len(),
        place_of(windows.take(n), w).is_some(),
    ensures
        place_of(windows, w) == place_of(windows.take(n), w),
    decreases windows.len() - n,
{
    if n < windows.len() {
        assert(windows.take(n + 1).drop_last() =~= windows.take(n));
        lemma_place_grows(windows, n + 1, w);
    } else {
        assert(windows.take(n) =~= windows);
    }
}

/// Return the windows that `windows` places and `others` does not.
fn find_missing(windows: &Vec<(Window, Geometry)>, others: &Vec<(Window, Geometry)>) -> (missing:
    Vec<Window>)
    ensures
        missing@ == missing_from(windows@, others@),
{
    let mut missing: Vec<Window> = Vec::new();
    let mut i: usize = 0;
    assert(windows@.take(0) =~= Seq::<(Window, Geometry)>::empty());
    while i < windows.len()
        invariant
            i <= windows@.len(),
            missing@ == missing_from(windows@.take(i as int), others@),
        decreases windows@.len() - i,
    {
        assert(windows@.take(i + 1).drop_last() =~= windows@.take(i as int));
        let w = windows[i].0;
        proof {
            lemma_place_of(others@, w);
        }
        if find_place(others, w).is_none() {
            missing.push(w);
        }
        i = i + 1;
    }
    assert(windows@.take(windows@.len() as int) =~= windows@);
    missing
}

/// Return the stacking order of a layout, and tell whether `before` has
/// the same.
fn stack_of(windows: &Vec<(Window, Geometry)>, before: &Vec<(Window, Geometry)>) -> (res: (
    Vec<Window>,
    bool,
))
    ensures
        res.0@ == stack(windows@),
        res.1 == (stack(windows@) == stack(before@)),
{
    let mut order: Vec<Window> = Vec::new();
    let mut same = windows.len() == before.len();
    let mut i: usize = 0;
    assert(stack(windows@).take(0) =~= stack(before@).take(0));
    while i < windows.len()
        invariant
            i <= windows@.len(),
            order@ == stack(windows@).take(i as int),
            same == (windows@.len() == before@.len() && stack(windows@).take(i as int) == stack(
                before@,
            ).take(i as int)),
        decreases windows@.len() - i,
    {
        let w = windows[i].0;
        order.push(w);
        assert(order@ =~= stack(windows@).take(i + 1));
        if same {
            if before[i].0 != w {
                same = false;
                assert(stack(windows@).take(i + 1)[i as int] != stack(before@).take(i + 1)[i as int]);
            } else {
                assert(stack(windows@).take(i + 1) =~= stack(windows@).take(i as int).push(w));
                assert(stack(before@).take(i + 1) =~= stack(before@).take(i as int).push(w));
            }
        } else if windows.len() == before.len() {
            assert(stack(windows@).take(i as int) =~= stack(windows@).take(i + 1).take(i as int));
            assert(stack(before@).take(i as int) =~= stack(before@).take(i + 1).take(i as int));
        }
        i = i + 1;
    }
    assert(stack(windows@).take(windows@.len() as int) =~= stack(windows@));
    if windows.len() == before.len() {
        assert(stack(before@).take(windows@.len() as int) =~= stack(before@));
    } else {
        assert(stack(windows@).len() != stack(before@).len());
    }
    (order, same)
}

/// Say what has to change on the screen to get from the layout `prev` to
/// the layout `new`.
///
/// Windows that only the old layout places are hidden, and windows that
/// only the new one places are revealed. The focus changes if the layouts
/// name different focused windows. The windows are stacked anew if the
/// stacking order is not the same, even when windows were only added or
/// removed. A window of the new layout gets its geometry if the old layout
/// does not place it, or gives it another geometry where it first places
/// it.
pub fn layout_change(prev: &WindowLayout, new: &WindowLayout) -> (change: LayoutChange)
    ensures
        change.hide@ == missing_from(prev.windows@, new.windows@),
        change.reveal@ == missing_from(new.windows@, prev.windows@),
        change.focus == focus_change(prev.focused_window, new.focused_window),
        match change.restack {
            Some(order) => stack(prev.windows@) != stack(new.windows@) && order@ == stack(
                new.windows@,
            ),
            None => stack(prev.windows@) == stack(new.windows@),
        },
        change.geometries@ == moved(new.windows@, prev.windows@),
{
    let hide = find_missing(&prev.windows, &new.windows);
    let reveal = find_missing(&new.windows, &prev.windows);
    let focus = match (prev.focused_window, new.focused_window) {
        (Some(w1), Some(w2)) => if w1 != w2 {
            FocusChange::Move(w1, w2)
        } else {
            FocusChange::Keep
        },
        (Some(w), None) => FocusChange::Unfocus(w),
        (None, Some(w)) => FocusChange::Focus(w),
        (None, None) => FocusChange::Keep,
    };
    let (order, same) = stack_of(&new.windows, &prev.windows);
    let restack = if same {
        None
    } else {
        Some(order)
    };
    let mut geometries: Vec<(Window, Geometry)> = Vec::new();
    let mut i: usize = 0;
    assert(new.windows@.take(0) =~= Seq::<(Window, Geometry)>::empty());
    while i < new.windows.len()
        invariant
            i <= new.windows@.len(),
            geometries@ == moved(new.windows@.take(i as int), prev.windows@),
        decreases new.windows@.len() - i,
    {
        assert(new.windows@.take(i + 1).drop_last() =~= new.windows@.take(i as int));
        let (window, geometry) = new.windows[i];
        let unchanged = match find_place(&prev.windows, window) {
            Some(before) => before == geometry,
            None => false,
        };
        if !unchanged {
            geometries.push((window, geometry));
        }
        i = i + 1;
    }
    assert(new.windows@.take(new.windows@.len() as int) =~= new.windows@);
    LayoutChange { hide, reveal, focus, restack, geometries }
}

} // verus!
