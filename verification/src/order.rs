//! Ordered lists of windows.
//!
//! Every window manager keeps its windows in lists without repetitions: the
//! focus order, the tiles, the minimised windows. This module states, as
//! functions on sequences, the few ways in which these lists change, proves
//! what the window managers need to know about them, and implements them on
//! vectors.

use vstd::prelude::*;
use crate::types::{PrevOrNext, Window};

verus! {

/// The list `s` with the window `w` taken out. A list that does not hold `w`
/// stays as it is.
pub open spec fn without(s: Seq<Window>, w: Window) -> Seq<Window> {
    if s.contains(w) {
        s.remove(s.index_of(w))
    } else {
        s
    }
}

/// The list `s` with the window `w` moved to its back, or added there.
pub open spec fn to_back(s: Seq<Window>, w: Window) -> Seq<Window> {
    without(s, w).push(w)
}

/// The list `s` with the items at `i` and `j` exchanged.
pub open spec fn swapped(s: Seq<Window>, i: int, j: int) -> Seq<Window> {
    s.update(i, s[j]).update(j, s[i])
}

/// The list `s` turned by one place, seen as a circle. Towards `Prev` the
/// last item comes to the front, towards `Next` the first item goes to the
/// back.
pub open spec fn rotated(s: Seq<Window>, dir: PrevOrNext) -> Seq<Window> {
    if s.len() == 0 {
        s
    } else {
        match dir {
            PrevOrNext::Prev => seq![s.last()] + s.drop_last(),
            PrevOrNext::Next => s.drop_first().push(s.first()),
        }
    }
}

/// The place next to `i` in a circle of `n` places, in the direction `dir`.
pub open spec fn neighbour(i: int, n: int, dir: PrevOrNext) -> int {
    match dir {
        PrevOrNext::Prev => if i == 0 { n - 1 } else { i - 1 },
        PrevOrNext::Next => if i + 1 == n { 0 } else { i + 1 },
    }
}

/// In a list without repetitions, taking out the item at `i` removes
/// exactly that place.
pub proof fn lemma_without_at(s: Seq<Window>, i: int)
    requires
        s.no_duplicates(),
        0 <= i < s.len(),
    ensures
        without(s, s[i]) == s.remove(i),
        s.index_of(s[i]) == i,
{
    assert(s.contains(s[i]));
}

/// What is left after a window is taken out of a list without repetitions.
pub proof fn lemma_without(s: Seq<Window>, w: Window)
    requires
        s.no_duplicates(),
    ensures
        without(s, w).no_duplicates(),
        !without(s, w).contains(w),
        forall|x: Window| #[trigger] without(s, w).contains(x) <==> s.contains(x) && x != w,
        s.contains(w) ==> without(s, w).len() == s.len() - 1,
        !s.contains(w) ==> without(s, w) == s,
{
    if s.contains(w) {
        let i = s.index_of(w);
        let r = s.remove(i);
        assert(r.len() == s.len() - 1);
        assert forall|k: int| 0 <= k < r.len() implies #[trigger] r[k] == s[if k < i { k } else { k + 1 }] by {}
        assert forall|x: Window| #[trigger] r.contains(x) <==> s.contains(x) && x != w by {
            if r.contains(x) {
                let k = choose|k: int| 0 <= k < r.len() && r[k] == x;
                let k2 = if k < i { k } else { k + 1 };
                assert(s[k2] == x);
            }
            if s.contains(x) && x != w {
                let k = choose|k: int| 0 <= k < s.len() && s[k] == x;
                let k2 = if k < i { k } else { k - 1 };
                assert(r[k2] == x);
            }
        }
        assert forall|a: int, b: int| 0 <= a < r.len() && 0 <= b < r.len() && a != b implies r[a] != r[b] by {
            let a2 = if a < i { a } else { a + 1 };
            let b2 = if b < i { b } else { b + 1 };
            assert(r[a] == s[a2]);
            assert(r[b] == s[b2]);
        }
    }
}

/// What a list holds after a window has been moved to its back.
pub proof fn lemma_to_back(s: Seq<Window>, w: Window)
    requires
        s.no_duplicates(),
    ensures
        to_back(s, w).no_duplicates(),
        to_back(s, w).last() == w,
        forall|x: Window| #[trigger] to_back(s, w).contains(x) <==> s.contains(x) || x == w,
        s.contains(w) ==> to_back(s, w).len() == s.len(),
        !s.contains(w) ==> to_back(s, w) == s.push(w),
        s.len() > 0 && s.last() == w ==> to_back(s, w) == s,
{
    lemma_without(s, w);
    let r = without(s, w);
    lemma_push(r, w);
    if s.len() > 0 && s.last() == w {
        lemma_without_at(s, s.len() - 1);
        assert(s.remove(s.len() - 1).push(w) =~= s);
    }
}

/// Adding a new window at the back of a list without repetitions.
pub proof fn lemma_push(s: Seq<Window>, w: Window)
    requires
        s.no_duplicates(),
        !s.contains(w),
    ensures
        s.push(w).no_duplicates(),
        forall|x: Window| #[trigger] s.push(w).contains(x) <==> s.contains(x) || x == w,
        without(s.push(w), w) == s,
{
    let p = s.push(w);
    assert forall|x: Window| #[trigger] p.contains(x) <==> s.contains(x) || x == w by {
        if s.contains(x) {
            let k = choose|k: int| 0 <= k < s.len() && s[k] == x;
            assert(p[k] == x);
        }
        if x == w {
            assert(p[s.len() as int] == w);
        }
    }
    assert forall|a: int, b: int| 0 <= a < p.len() && 0 <= b < p.len() && a != b implies p[a] != p[b] by {
        if a < s.len() {
            assert(s.contains(p[a]));
        }
        if b < s.len() {
            assert(s.contains(p[b]));
        }
    }
    lemma_without_at(p, s.len() as int);
    assert(p.remove(s.len() as int) =~= s);
}

/// Exchanging two items keeps what the list holds.
pub proof fn lemma_swapped(s: Seq<Window>, i: int, j: int)
    requires
        0 <= i < s.len(),
        0 <= j < s.len(),
    ensures
        swapped(s, i, j).len() == s.len(),
        s.no_duplicates() ==> swapped(s, i, j).no_duplicates(),
        forall|x: Window| #[trigger] swapped(s, i, j).contains(x) <==> s.contains(x),
        swapped(swapped(s, i, j), i, j) == s,
        swapped(s, j, i) == swapped(s, i, j),
        swapped(s, i, i) == s,
{
    let r = swapped(s, i, j);
    assert forall|x: Window| #[trigger] r.contains(x) <==> s.contains(x) by {
        if r.contains(x) {
            let k = choose|k: int| 0 <= k < r.len() && r[k] == x;
            let k2 = if k == i { j } else if k == j { i } else { k };
            assert(s[k2] == x);
        }
        if s.contains(x) {
            let k = choose|k: int| 0 <= k < s.len() && s[k] == x;
            let k2 = if k == i { j } else if k == j { i } else { k };
            assert(r[k2] == x);
        }
    }
    if s.no_duplicates() {
        assert forall|a: int, b: int| 0 <= a < r.len() && 0 <= b < r.len() && a != b implies r[a] != r[b] by {
            let a2 = if a == i { j } else if a == j { i } else { a };
            let b2 = if b == i { j } else if b == j { i } else { b };
            assert(r[a] == s[a2]);
            assert(r[b] == s[b2]);
        }
    }
    assert(swapped(r, i, j) =~= s);
    assert(swapped(s, j, i) =~= r);
    assert(swapped(s, i, i) =~= s);
}

/// Turning a list keeps what it holds, and turning it back restores it.
pub proof fn lemma_rotated(s: Seq<Window>, dir: PrevOrNext)
    ensures
        rotated(s, dir).len() == s.len(),
        s.no_duplicates() ==> rotated(s, dir).no_duplicates(),
        forall|x: Window| #[trigger] rotated(s, dir).contains(x) <==> s.contains(x),
        rotated(rotated(s, dir), dir.spec_opposite()) == s,
        s.len() == 1 ==> rotated(s, dir) == s,
        s.len() == 2 ==> rotated(s, dir) == swapped(s, 0, 1),
{
    let r = rotated(s, dir);
    let n = s.len() as int;
    if n > 0 {
        assert forall|k: int| 0 <= k < n implies #[trigger] r[k] == s[match dir {
            PrevOrNext::Prev => if k == 0 { n - 1 } else { k - 1 },
            PrevOrNext::Next => if k == n - 1 { 0 } else { k + 1 },
        }] by {}
        assert forall|x: Window| #[trigger] r.contains(x) <==> s.contains(x) by {
            if r.contains(x) {
                let k = choose|k: int| 0 <= k < r.len() && r[k] == x;
                let k2 = match dir {
                    PrevOrNext::Prev => if k == 0 { n - 1 } else { k - 1 },
                    PrevOrNext::Next => if k == n - 1 { 0 } else { k + 1 },
                };
                assert(s[k2] == x);
            }
            if s.contains(x) {
                let k = choose|k: int| 0 <= k < s.len() && s[k] == x;
                let k2 = match dir {
                    PrevOrNext::Prev => if k == n - 1 { 0 } else { k + 1 },
                    PrevOrNext::Next => if k == 0 { n - 1 } else { k - 1 },
                };
                assert(r[k2] == x);
            }
        }
        if s.no_duplicates() {
            assert forall|a: int, b: int| 0 <= a < n && 0 <= b < n && a != b implies r[a] != r[b] by {
                let a2 = match dir {
                    PrevOrNext::Prev => if a == 0 { n - 1 } else { a - 1 },
                    PrevOrNext::Next => if a == n - 1 { 0 } else { a + 1 },
                };
                let b2 = match dir {
                    PrevOrNext::Prev => if b == 0 { n - 1 } else { b - 1 },
                    PrevOrNext::Next => if b == n - 1 { 0 } else { b + 1 },
                };
                assert(r[a] == s[a2]);
                assert(r[b] == s[b2]);
            }
        }
        assert(rotated(r, dir.spec_opposite()) =~= s);
        if n == 1 {
            assert(r =~= s);
        }
        if n == 2 {
            assert(r =~= swapped(s, 0, 1));
        }
    }
}

/// Going to the neighbour and back ends where one started.
pub proof fn lemma_neighbour(i: int, n: int, dir: PrevOrNext)
    requires
        0 <= i < n,
    ensures
        0 <= neighbour(i, n, dir) < n,
        neighbour(neighbour(i, n, dir), n, dir.spec_opposite()) == i,
{
}

/// The windows of `s` that are in `set`, in the order that they have in `s`.
pub open spec fn those_in(s: Seq<Window>, set: Set<Window>) -> Seq<Window>
    decreases s.len(),
{
    if s.len() == 0 {
        Seq::empty()
    } else {
        let rest = those_in(s.drop_last(), set);
        if set.contains(s.last()) {
            rest.push(s.last())
        } else {
            rest
        }
    }
}

/// A selection holds exactly the selected items of the list, and none of
/// them twice if the list holds none twice.
pub proof fn lemma_those_in(s: Seq<Window>, set: Set<Window>)
    ensures
        forall|x: Window| #[trigger]
            those_in(s, set).contains(x) <==> s.contains(x) && set.contains(x),
        s.no_duplicates() ==> those_in(s, set).no_duplicates(),
        those_in(s, set).len() <= s.len(),
    decreases s.len(),
{
    if s.len() > 0 {
        let init = s.drop_last();
        let rest = those_in(init, set);
        let r = those_in(s, set);
        lemma_those_in(init, set);
        assert forall|x: Window| #[trigger] r.contains(x) <==> s.contains(x) && set.contains(
            x,
        ) by {
            if r.contains(x) {
                let k = choose|k: int| 0 <= k < r.len() && r[k] == x;
                if k < rest.len() {
                    assert(rest[k] == x);
                    assert(rest.contains(x));
                    let j = choose|j: int| 0 <= j < init.len() && init[j] == x;
                    assert(s[j] == x);
                } else {
                    assert(x == s.last());
                    assert(s[s.len() - 1] == x);
                }
            }
            if s.contains(x) && set.contains(x) {
                let j = choose|j: int| 0 <= j < s.len() && s[j] == x;
                if j < init.len() {
                    assert(init[j] == x);
                    assert(init.contains(x));
                    assert(those_in(init, set).contains(x));
                    let k = choose|k: int| 0 <= k < rest.len() && rest[k] == x;
                    assert(r[k] == x);
                } else {
                    assert(r[r.len() - 1] == x);
                }
            }
        }
        if s.no_duplicates() {
            assert(init.no_duplicates());
            if set.contains(s.last()) {
                if rest.contains(s.last()) {
                    let j = choose|j: int| 0 <= j < init.len() && init[j] == s.last();
                    assert(s[j] == s[s.len() - 1]);
                }
                lemma_push(rest, s.last());
            }
        }
    }
}

/// How a selection grows with the prefix of the list that it is made from.
pub proof fn lemma_those_in_step(s: Seq<Window>, i: int, set: Set<Window>)
    requires
        0 <= i < s.len(),
    ensures
        those_in(s.take(i + 1), set) == if set.contains(s[i]) {
            those_in(s.take(i), set).push(s[i])
        } else {
            those_in(s.take(i), set)
        },
{
    assert(s.take(i + 1).drop_last() =~= s.take(i));
}

/// The selections from the empty prefix and from the whole list.
pub proof fn lemma_those_in_ends(s: Seq<Window>, set: Set<Window>)
    ensures
        those_in(s.take(0), set) == Seq::<Window>::empty(),
        those_in(s.take(s.len() as int), set) == those_in(s, set),
{
    assert(s.take(s.len() as int) =~= s);
}

/// The last window of `s` that `hidden` does not hold, if there is one.
pub open spec fn last_not_in(s: Seq<Window>, hidden: Seq<Window>) -> Option<Window>
    decreases s.len(),
{
    if s.len() == 0 {
        None
    } else if !hidden.contains(s.last()) {
        Some(s.last())
    } else {
        last_not_in(s.drop_last(), hidden)
    }
}

/// The window that `last_not_in` finds is in the list and not hidden, and
/// where it finds none the whole list is hidden.
pub proof fn lemma_last_not_in(s: Seq<Window>, hidden: Seq<Window>)
    ensures
        match last_not_in(s, hidden) {
            Some(v) => s.contains(v) && !hidden.contains(v),
            None => forall|x: Window| s.contains(x) ==> #[trigger] hidden.contains(x),
        },
        s.len() > 0 && !hidden.contains(s.last()) ==> last_not_in(s, hidden) == Some(s.last()),
    decreases s.len(),
{
    if s.len() > 0 {
        if !hidden.contains(s.last()) {
            assert(s[s.len() - 1] == s.last());
        } else {
            let init = s.drop_last();
            lemma_last_not_in(init, hidden);
            match last_not_in(init, hidden) {
                Some(v) => {
                    let j = choose|j: int| 0 <= j < init.len() && init[j] == v;
                    assert(s[j] == v);
                },
                None => {
                    assert forall|x: Window| s.contains(x) implies #[trigger] hidden.contains(
                        x,
                    ) by {
                        let j = choose|j: int| 0 <= j < s.len() && s[j] == x;
                        if j < init.len() {
                            assert(init[j] == x);
                            assert(init.contains(x));
                        }
                    }
                },
            }
        }
    }
}

/// Taking out another window than the last one leaves the last one last.
pub proof fn lemma_without_keeps_last(s: Seq<Window>, w: Window)
    requires
        s.no_duplicates(),
        s.len() > 0,
        s.last() != w,
    ensures
        without(s, w).len() > 0,
        without(s, w).last() == s.last(),
{
    if s.contains(w) {
        let i = s.index_of(w);
        assert(s.remove(i).last() == s.last());
    }
}

/// A window that was moved to the back and is then taken out leaves the
/// list as if it had been taken out at once.
pub proof fn lemma_to_back_without(s: Seq<Window>, w: Window)
    requires
        s.no_duplicates(),
    ensures
        without(to_back(s, w), w) == without(s, w),
        to_back(to_back(s, w), w) == to_back(s, w),
{
    lemma_without(s, w);
    lemma_push(without(s, w), w);
}

/// The lists of `parts` one after the other.
pub open spec fn joined(parts: Seq<Seq<Window>>) -> Seq<Window>
    decreases parts.len(),
{
    if parts.len() == 0 {
        Seq::empty()
    } else {
        joined(parts.drop_last()) + parts.last()
    }
}

/// The joined list holds what one of the parts holds.
pub proof fn lemma_joined(parts: Seq<Seq<Window>>)
    ensures
        forall|x: Window| #[trigger]
            joined(parts).contains(x) <==> exists|i: int|
                0 <= i < parts.len() && (#[trigger] parts[i]).contains(x),
    decreases parts.len(),
{
    if parts.len() > 0 {
        let init = parts.drop_last();
        let all = joined(parts);
        lemma_joined(init);
        assert forall|x: Window| #[trigger] all.contains(x) <==> exists|i: int|
            0 <= i < parts.len() && (#[trigger] parts[i]).contains(x) by {
            if all.contains(x) {
                let k = choose|k: int| 0 <= k < all.len() && all[k] == x;
                if k < joined(init).len() {
                    assert(joined(init)[k] == x);
                    assert(joined(init).contains(x));
                    let i = choose|i: int| 0 <= i < init.len() && (#[trigger] init[i]).contains(x);
                    assert(parts[i].contains(x));
                } else {
                    assert(parts.last()[k - joined(init).len()] == x);
                    assert(parts[parts.len() - 1].contains(x));
                }
            }
            if exists|i: int| 0 <= i < parts.len() && (#[trigger] parts[i]).contains(x) {
                let i = choose|i: int| 0 <= i < parts.len() && (#[trigger] parts[i]).contains(x);
                if i < init.len() {
                    assert(init[i].contains(x));
                    assert(joined(init).contains(x));
                    let k = choose|k: int| 0 <= k < joined(init).len() && joined(init)[k] == x;
                    assert(all[k] == x);
                } else {
                    let j = choose|j: int| 0 <= j < parts.last().len() && parts.last()[j] == x;
                    assert(all[joined(init).len() + j] == x);
                }
            }
        }
    }
}

/// Parts that hold no window twice and share no window make a joined list
/// that holds no window twice.
pub proof fn lemma_joined_no_duplicates(parts: Seq<Seq<Window>>)
    requires
        forall|i: int| 0 <= i < parts.len() ==> (#[trigger] parts[i]).no_duplicates(),
        forall|i: int, j: int, x: Window|
            0 <= i < parts.len() && 0 <= j < parts.len() && i != j && #[trigger] parts[i].contains(x)
                ==> !#[trigger] parts[j].contains(x),
    ensures
        joined(parts).no_duplicates(),
    decreases parts.len(),
{
    if parts.len() > 0 {
        let init = parts.drop_last();
        let front = joined(init);
        let last = parts.last();
        let all = joined(parts);
        assert forall|i: int| 0 <= i < init.len() implies (#[trigger] init[i]).no_duplicates() by {
            assert(init[i] == parts[i]);
        }
        assert forall|i: int, j: int, x: Window|
            0 <= i < init.len() && 0 <= j < init.len() && i != j && #[trigger] init[i].contains(x)
                implies !#[trigger] init[j].contains(x) by {
            assert(init[i] == parts[i]);
            assert(init[j] == parts[j]);
        }
        lemma_joined_no_duplicates(init);
        lemma_joined(init);
        assert forall|a: int, b: int| 0 <= a < all.len() && 0 <= b < all.len() && a != b implies all[a]
            != all[b] by {
            if a < front.len() && b < front.len() {
                assert(front[a] != front[b]);
            } else if a >= front.len() && b >= front.len() {
                assert(last[a - front.len()] != last[b - front.len()]);
            } else {
                let (lo, hi) = if a < b {
                    (a, b)
                } else {
                    (b, a)
                };
                let x = all[lo];
                assert(front[lo] == x);
                assert(front.contains(x));
                let i = choose|i: int| 0 <= i < init.len() && (#[trigger] init[i]).contains(x);
                assert(parts[i].contains(x));
                assert(parts[parts.len() - 1] == last);
                if all[hi] == x {
                    assert(last[hi - front.len()] == x);
                    assert(parts[parts.len() - 1].contains(x));
                }
            }
        }
    }
}

/// How the joined list grows with the number of parts.
pub proof fn lemma_joined_step(parts: Seq<Seq<Window>>, i: int)
    requires
        0 <= i < parts.len(),
    ensures
        joined(parts.take(i + 1)) == joined(parts.take(i)) + parts[i],
{
    assert(parts.take(i + 1).drop_last() =~= parts.take(i));
}

/// The joined lists of no part and of all parts.
pub proof fn lemma_joined_ends(parts: Seq<Seq<Window>>)
    ensures
        joined(parts.take(0)) == Seq::<Window>::empty(),
        joined(parts.take(parts.len() as int)) == joined(parts),
{
    assert(parts.take(parts.len() as int) =~= parts);
}

/// A finite set that holds a list without repetitions and is as large as
/// the list holds nothing else.
pub proof fn lemma_same_keys(s: Seq<Window>, keys: Set<Window>)
    requires
        s.no_duplicates(),
        keys.finite(),
        forall|w: Window| s.contains(w) ==> #[trigger] keys.contains(w),
    ensures
        keys.len() >= s.len(),
        keys.len() == s.len() <==> forall|w: Window| #[trigger] keys.contains(w) <==> s.contains(w),
{
    s.unique_seq_to_set();
    assert(s.to_set().subset_of(keys));
    vstd::set_lib::lemma_len_subset(s.to_set(), keys);
    if keys.len() == s.len() {
        vstd::set_lib::lemma_subset_equality(s.to_set(), keys);
        assert forall|w: Window| #[trigger] keys.contains(w) <==> s.contains(w) by {
            assert(s.to_set().contains(w) <==> s.contains(w));
        }
    }
    if forall|w: Window| #[trigger] keys.contains(w) <==> s.contains(w) {
        assert(s.to_set() =~= keys);
    }
}

/// A finite set is within a list without repetitions exactly if the
/// selection of the list by the set is as large as the set.
pub proof fn lemma_all_selected(s: Seq<Window>, set: Set<Window>)
    requires
        s.no_duplicates(),
        set.finite(),
    ensures
        those_in(s, set).len() <= set.len(),
        those_in(s, set).len() == set.len() <==> forall|w: Window|
            set.contains(w) ==> #[trigger] s.contains(w),
{
    let chosen = those_in(s, set);
    lemma_those_in(s, set);
    chosen.unique_seq_to_set();
    assert(chosen.to_set().subset_of(set)) by {
        assert forall|w: Window| chosen.to_set().contains(w) implies set.contains(w) by {
            assert(chosen.contains(w));
        }
    }
    vstd::set_lib::lemma_len_subset(chosen.to_set(), set);
    if chosen.len() == set.len() {
        vstd::set_lib::lemma_subset_equality(chosen.to_set(), set);
        assert forall|w: Window| set.contains(w) implies #[trigger] s.contains(w) by {
            assert(chosen.to_set().contains(w));
            assert(chosen.contains(w));
        }
    }
    if forall|w: Window| set.contains(w) ==> #[trigger] s.contains(w) {
        assert forall|w: Window| set.contains(w) implies chosen.to_set().contains(w) by {
            assert(s.contains(w));
            assert(chosen.contains(w));
        }
        assert(chosen.to_set() =~= set);
    }
}

/// Tell whether `v` holds no window twice.
pub fn has_no_duplicates(v: &Vec<Window>) -> (unique: bool)
    ensures
        unique == v@.no_duplicates(),
{
    let mut i: usize = 0;
    while i < v.len()
        invariant
            i <= v@.len(),
            forall|a: int, b: int| 0 <= a < b < i ==> v@[a] != v@[b],
        decreases v@.len() - i,
    {
        let mut j: usize = 0;
        while j < i
            invariant
                j <= i < v@.len(),
                forall|a: int| 0 <= a < j ==> v@[a] != v@[i as int],
            decreases i - j,
        {
            if v[j] == v[i] {
                return false;
            }
            j = j + 1;
        }
        i = i + 1;
    }
    assert forall|a: int, b: int| 0 <= a < v@.len() && 0 <= b < v@.len() && a != b implies v@[a]
        != v@[b] by {
        if a < b {
            assert(v@[a] != v@[b]);
        } else {
            assert(v@[b] != v@[a]);
        }
    }
    true
}

/// Return the place of `w` in `v`, if `v` holds it.
pub fn position(v: &Vec<Window>, w: Window) -> (place: Option<usize>)
    ensures
        match place {
            Some(i) => i < v@.len() && v@[i as int] == w && forall|j: int|
                0 <= j < i ==> v@[j] != w,
            None => !v@.contains(w),
        },
        v@.no_duplicates() && v@.contains(w) ==> place == Some(v@.index_of(w) as usize),
{
    let mut i: usize = 0;
    while i < v.len()
        invariant
            i <= v@.len(),
            forall|j: int| 0 <= j < i ==> v@[j] != w,
        decreases v@.len() - i,
    {
        if v[i] == w {
            proof {
                if v@.no_duplicates() {
                    lemma_without_at(v@, i as int);
                }
            }
            return Some(i);
        }
        i = i + 1;
    }
    None
}

/// Tell whether `v` holds `w`.
pub fn holds(v: &Vec<Window>, w: Window) -> (found: bool)
    ensures
        found == v@.contains(w),
{
    position(v, w).is_some()
}

/// Take `w` out of `v`. Return whether it was there.
pub fn take_out(v: &mut Vec<Window>, w: Window) -> (found: bool)
    requires
        old(v)@.no_duplicates(),
    ensures
        final(v)@ == without(old(v)@, w),
        found == old(v)@.contains(w),
{
    match position(v, w) {
        Some(i) => {
            proof {
                lemma_without_at(v@, i as int);
            }
            v.remove(i);
            true
        },
        None => false,
    }
}

/// Move `w` to the back of `v`, or add it there.
pub fn send_to_back(v: &mut Vec<Window>, w: Window)
    requires
        old(v)@.no_duplicates(),
    ensures
        final(v)@ == to_back(old(v)@, w),
{
    take_out(v, w);
    v.push(w);
}

/// Return the last window of `v` that `hidden` does not hold.
pub fn find_last_not_in(v: &Vec<Window>, hidden: &Vec<Window>) -> (found: Option<Window>)
    ensures
        found == last_not_in(v@, hidden@),
{
    let mut i: usize = v.len();
    assert(v@.take(i as int) =~= v@);
    while i > 0
        invariant
            i <= v@.len(),
            last_not_in(v@, hidden@) == last_not_in(v@.take(i as int), hidden@),
        decreases i,
    {
        let w = v[i - 1];
        assert(v@.take(i as int).last() == w);
        assert(v@.take(i as int).drop_last() =~= v@.take(i - 1));
        if !holds(hidden, w) {
            return Some(w);
        }
        i = i - 1;
    }
    None
}

/// Exchange the items at `i` and `j`.
pub fn swap(v: &mut Vec<Window>, i: usize, j: usize)
    requires
        i < old(v)@.len(),
        j < old(v)@.len(),
    ensures
        final(v)@ == swapped(old(v)@, i as int, j as int),
{
    let a = v[i];
    let b = v[j];
    v.set(i, b);
    v.set(j, a);
}

/// Turn `v` by one place in the direction `dir`.
pub fn rotate(v: &mut Vec<Window>, dir: PrevOrNext)
    ensures
        final(v)@ == rotated(old(v)@, dir),
{
    if v.len() == 0 {
        return ;
    }
    match dir {
        PrevOrNext::Prev => {
            let last = v[v.len() - 1];
            v.pop();
            v.insert(0, last);
            assert(v@ =~= rotated(old(v)@, dir));
        },
        PrevOrNext::Next => {
            let first = v.remove(0);
            v.push(first);
            assert(v@ =~= rotated(old(v)@, dir));
        },
    }
}

/// Return the place next to `i` in a circle of `n` places.
pub fn next_place(i: usize, n: usize, dir: PrevOrNext) -> (j: usize)
    requires
        i < n,
    ensures
        j == neighbour(i as int, n as int, dir),
        j < n,
{
    match dir {
        PrevOrNext::Prev => if i == 0 { n - 1 } else { i - 1 },
        PrevOrNext::Next => if i + 1 == n { 0 } else { i + 1 },
    }
}

} // verus!
