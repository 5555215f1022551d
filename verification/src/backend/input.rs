//! Keys and mouse buttons with their modifiers.

use vstd::prelude::*;

verus! {

/// The type of a key mask: the modifier keys that are held down, each of
/// them one bit.
pub type XKeyMask = u32;

/// The type of a mouse button.
pub type XButton = u32;

/// The type of a key symbol.
pub type KeySym = u64;

/// The mask of the caps lock key.
pub const LOCK_MASK: XKeyMask = 0x02;

/// A key pressed on the keyboard.
#[derive(Copy, Clone, PartialEq, Eq, Hash, Debug, Structural)]
pub struct Key {
    /// The key mask: the modifier keys that are held down.
    pub mask: XKeyMask,
    /// The key symbol.
    pub sym: KeySym,
}

impl Key {
    /// A key with the given modifiers.
    pub fn new(mask: XKeyMask, sym: KeySym) -> (key: Key)
        ensures
            key == (Key { mask, sym }),
    {
        Key { mask, sym }
    }
}

/// A button pressed on the mouse.
#[derive(Copy, Clone, PartialEq, Eq, Hash, Debug, Structural)]
pub struct Button {
    /// The key mask: the modifier keys that are held down.
    pub mask: XKeyMask,
    /// The button.
    pub button: XButton,
}

impl Button {
    /// A button with the given modifiers.
    pub fn new(mask: XKeyMask, button: XButton) -> (pressed: Button)
        ensures
            pressed == (Button { mask, button }),
    {
        Button { mask, button }
    }
}

/// The modifiers of `masks` together: a bit is set in the result exactly if
/// one of the masks has it set.
pub open spec fn combined(masks: Seq<XKeyMask>) -> XKeyMask
    decreases masks.len(),
{
    if masks.len() == 0 {
        0
    } else {
        combined(masks.drop_last()) | masks.last()
    }
}

/// Return the modifiers at the front of `symbols` together: all but the
/// last item.
fn modifiers(symbols: &Vec<u32>) -> (mask: XKeyMask)
    requires
        symbols@.len() > 0,
    ensures
        mask == combined(symbols@.drop_last()),
{
    let mut mask: XKeyMask = 0;
    let mut i: usize = 0;
    let n = symbols.len() - 1;
    assert(symbols@.drop_last().take(0) =~= Seq::<u32>::empty());
    while i < n
        invariant
            i <= n,
            n == symbols@.len() - 1,
            mask == combined(symbols@.drop_last().take(i as int)),
        decreases n - i,
    {
        assert(symbols@.drop_last().take(i + 1).drop_last() =~= symbols@.drop_last().take(
            i as int,
        ));
        mask = mask | symbols[i];
        i = i + 1;
    }
    assert(symbols@.drop_last().take(n as int) =~= symbols@.drop_last());
    mask
}

/// Make a key from a list of key symbols. The last one is the key itself,
/// all those before it are modifiers. The list must not be empty: there
/// has to be a key to press.
pub fn make_key(keysyms: Vec<u32>) -> (key: Key)
    requires
        keysyms@.len() > 0,
    ensures
        key == (Key { mask: combined(keysyms@.drop_last()), sym: keysyms@.last() as u64 }),
{
    let mask = modifiers(&keysyms);
    Key::new(mask, keysyms[keysyms.len() - 1] as u64)
}

/// Make a button from a list of symbols. The last one is the button itself,
/// all those before it are modifiers. The list must not be empty: there
/// has to be a button to press.
pub fn make_button(symbols: Vec<u32>) -> (button: Button)
    requires
        symbols@.len() > 0,
    ensures
        button == (Button { mask: combined(symbols@.drop_last()), button: symbols@.last() }),
{
    let mask = modifiers(&symbols);
    Button::new(mask, symbols[symbols.len() - 1])
}

/// Return the key mask without num lock and caps lock, given the mask of
/// the num lock key.
pub fn clean_mask(numlock_mask: XKeyMask, mask: XKeyMask) -> (cleaned: XKeyMask)
    ensures
        cleaned == !(numlock_mask | LOCK_MASK) & mask,
        cleaned & numlock_mask == 0,
        cleaned & LOCK_MASK == 0,
        cleaned | mask == mask,
{
    let cleaned = !(numlock_mask | LOCK_MASK) & mask;
    assert(cleaned & numlock_mask == 0 && cleaned & 0x02u32 == 0 && cleaned | mask == mask)
        by (bit_vector)
        requires
            cleaned == !(numlock_mask | 0x02u32) & mask,
    ;
    cleaned
}

} // verus!
