//! How a request to change a `_NET_WM_STATE` property is answered.

use vstd::prelude::*;

verus! {

/// The action that removes a state.
pub const NET_WM_STATE_REMOVE: i64 = 0;

/// The action that adds a state.
pub const NET_WM_STATE_ADD: i64 = 1;

/// The action that toggles a state.
pub const NET_WM_STATE_TOGGLE: i64 = 2;

/// What is to be done with a state of a window.
#[derive(Copy, Clone, PartialEq, Eq, Debug, Structural)]
pub enum AddRemoveNothing {
    /// Add the state.
    Add,
    /// Remove the state. The argument is its place in the list of the
    /// states that the window has.
    Remove(usize),
    /// Do nothing.
    DoNothing,
}

impl AddRemoveNothing {
    /// Return `true` in the case it is a `DoNothing`.
    pub fn is_do_nothing(&self) -> (nothing: bool)
        ensures
            nothing == (*self == AddRemoveNothing::DoNothing),
    {
        match *self {
            AddRemoveNothing::DoNothing => true,
            _ => false,
        }
    }
}

/// What an action asks for, given the place of the state among the states
/// that the window has, if it has the state. A state that the window lacks
/// is added when it is to be added or toggled. A state that the window has
/// is removed when it is to be removed or toggled. In every other case
/// nothing is done.
pub open spec fn answer(action: i64, place: Option<usize>) -> AddRemoveNothing {
    match place {
        None => if action == NET_WM_STATE_ADD || action == NET_WM_STATE_TOGGLE {
            AddRemoveNothing::Add
        } else {
            AddRemoveNothing::DoNothing
        },
        Some(pos) => if action == NET_WM_STATE_TOGGLE || action == NET_WM_STATE_REMOVE {
            AddRemoveNothing::Remove(pos)
        } else {
            AddRemoveNothing::DoNothing
        },
    }
}

/// Return what an action asks for, see [`answer`].
pub fn state_change(action: i64, place: Option<usize>) -> (change: AddRemoveNothing)
    ensures
        change == answer(action, place),
{
    match place {
        None => if action == NET_WM_STATE_ADD || action == NET_WM_STATE_TOGGLE {
            AddRemoveNothing::Add
        } else {
            AddRemoveNothing::DoNothing
        },
        Some(pos) => if action == NET_WM_STATE_TOGGLE || action == NET_WM_STATE_REMOVE {
            AddRemoveNothing::Remove(pos)
        } else {
            AddRemoveNothing::DoNothing
        },
    }
}

/// The place of the first occurrence of `state` in `states`.
pub open spec fn first_place(states: Seq<i32>, state: i32) -> Option<usize>
    decreases states.len(),
{
    if states.len() == 0 {
        None
    } else {
        match first_place(states.drop_last(), state) {
            Some(i) => Some(i),
            None => if states.last() == state {
                Some((states.len() - 1) as usize)
            } else {
                None
            },
        }
    }
}

/// The first place is a place of the state, and there is one wherever the
/// state occurs.
pub proof fn lemma_first_place(states: Seq<i32>, state: i32)
    requires
        states.len() <= usize::MAX,
    ensures
        match first_place(states, state) {
            Some(i) => i < states.len() && states[i as int] == state && forall|j: int|
                0 <= j < i ==> states[j] != state,
            None => forall|j: int| 0 <= j < states.len() ==> states[j] != state,
        },
    decreases states.len(),
{
    if states.len() > 0 {
        lemma_first_place(states.drop_last(), state);
        match first_place(states.drop_last(), state) {
            Some(i) => {
                assert(states.drop_last()[i as int] == states[i as int]);
                assert forall|j: int| 0 <= j < i implies states[j] != state by {
                    assert(states.drop_last()[j] == states[j]);
                }
            },
            None => {
                assert forall|j: int| 0 <= j < states.len() - 1 implies states[j] != state by {
                    assert(states.drop_last()[j] == states[j]);
                }
            },
        }
    }
}

/// Return the place of the first occurrence of `state` in `states`.
fn find_state(states: &Vec<i32>, state: i32) -> (place: Option<usize>)
    ensures
        place == first_place(states@, state),
{
    let mut i: usize = 0;
    assert(states@.take(0) =~= Seq::<i32>::empty());
    while i < states.len()
        invariant
            i <= states@.len(),
            first_place(states@.take(i as int), state).is_none(),
        decreases states@.len() - i,
    {
        assert(states@.take(i + 1).drop_last() =~= states@.take(i as int));
        if states[i] == state {
            proof {
                lemma_grows(states@, i + 1, state);
            }
            return Some(i);
        }
        i = i + 1;
    }
    assert(states@.take(states@.len() as int) =~= states@);
    None
}

/// A first place that is found in a prefix is the first place in the whole
/// list.
proof fn lemma_grows(states: Seq<i32>, n: int, state: i32)
    requires
        0 <= n <= states.len(),
        first_place(states.take(n), state).is_some(),
    ensures
        first_place(states, state) == first_place(states.take(n), state),
    decreases states.len() - n,
{
    if n < states.len() {
        assert(states.take(n + 1).drop_last() =~= states.take(n));
        lemma_grows(states, n + 1, state);
    } else {
        assert(states.take(n) =~= states);
    }
}

/// The states of a window after a request for `state` has been answered.
pub open spec fn answered(states: Seq<i32>, state: i32, action: i64) -> Seq<i32> {
    match answer(action, first_place(states, state)) {
        AddRemoveNothing::Add => states.push(state),
        AddRemoveNothing::Remove(pos) => states.remove(pos as int),
        AddRemoveNothing::DoNothing => states,
    }
}

/// Answer a request to change states of a window, as far as it is about
/// `state`.
///
/// `named` tells whether the request names the state; a request that does
/// not is not about it. Otherwise the state is added to the states of the
/// window or removed from them as the action asks, see [`answer`]. The
/// result tells whether the states have changed: only then is there
/// anything to tell the display server and the window manager.
pub fn update_states(
    named: bool,
    state: i32,
    existing_states: &mut Vec<i32>,
    action: i64,
) -> (changed: bool)
    ensures
        named ==> final(existing_states)@ == answered(old(existing_states)@, state, action),
        !named ==> final(existing_states)@ == old(existing_states)@,
        changed == (named && answer(action, first_place(old(existing_states)@, state))
            != AddRemoveNothing::DoNothing),
{
    if !named {
        return false;
    }
    let place = find_state(existing_states, state);
    let count = existing_states.len();
    proof {
        assert(existing_states@.len() == count);
        lemma_first_place(existing_states@, state);
    }
    let change = state_change(action, place);
    match change {
        AddRemoveNothing::Add => {
            existing_states.push(state);
        },
        AddRemoveNothing::Remove(pos) => {
            existing_states.remove(pos);
        },
        AddRemoveNothing::DoNothing => {},
    }
    !change.is_do_nothing()
}

} // verus!
