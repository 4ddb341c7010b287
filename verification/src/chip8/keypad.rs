use vstd::prelude::*;

verus! {

/// Whether bit `k` of a key mask is set.
pub open spec fn key_bit(bits: u16, k: int) -> bool {
    (bits >> (k as u16)) & 1u16 == 1u16
}

/// The sixteen keys `0x0..=0xF` as a sequence of "held down" flags.
pub open spec fn keys_of(bits: u16) -> Seq<bool> {
    Seq::new(16, |k: int| key_bit(bits, k))
}

/// Whether any of the sixteen keys is held down.
pub open spec fn any_pressed(keys: Seq<bool>) -> bool {
    exists|k: int| 0 <= k < 16 && #[trigger] keys[k]
}

proof fn lemma_set_bit(b: u16, key: u16, k: u16)
    requires
        key < 16,
        k < 16,
    ensures
        ((b | (1u16 << key)) >> k) & 1u16 == 1u16 <==> (k == key || (b >> k) & 1u16 == 1u16),
{
    assert(((b | (1u16 << key)) >> k) & 1u16 == 1u16 <==> (k == key || (b >> k) & 1u16 == 1u16))
        by (bit_vector)
        requires
            key < 16,
            k < 16,
    ;
}

proof fn lemma_clear_bit(b: u16, key: u16, k: u16)
    requires
        key < 16,
        k < 16,
    ensures
        ((b & !(1u16 << key)) >> k) & 1u16 == 1u16 <==> (k != key && (b >> k) & 1u16 == 1u16),
        (b & !(1u16 << key)) != 0 ==> b != 0,
{
    assert(((b & !(1u16 << key)) >> k) & 1u16 == 1u16 <==> (k != key && (b >> k) & 1u16 == 1u16))
        by (bit_vector)
        requires
            key < 16,
            k < 16,
    ;
    assert((b & !(1u16 << key)) != 0 ==> b != 0) by (bit_vector);
}

proof fn lemma_test_bit(b: u16, key: u16)
    requires
        key < 16,
    ensures
        (b & (1u16 << key) != 0) == ((b >> key) & 1u16 == 1u16),
{
    assert((b & (1u16 << key) != 0) == ((b >> key) & 1u16 == 1u16)) by (bit_vector)
        requires
            key < 16,
    ;
}

proof fn lemma_nonzero_has_bit(b: u16)
    ensures
        b != 0 <==> any_pressed(keys_of(b)),
{
    let keys = keys_of(b);
    if b != 0 {
        assert(b != 0 ==> (b & 1u16 == 1u16 || (b >> 1u16) & 1u16 == 1u16 || (b >> 2u16) & 1u16
            == 1u16 || (b >> 3u16) & 1u16 == 1u16 || (b >> 4u16) & 1u16 == 1u16 || (b >> 5u16)
            & 1u16 == 1u16 || (b >> 6u16) & 1u16 == 1u16 || (b >> 7u16) & 1u16 == 1u16 || (b
            >> 8u16) & 1u16 == 1u16 || (b >> 9u16) & 1u16 == 1u16 || (b >> 10u16) & 1u16 == 1u16
            || (b >> 11u16) & 1u16 == 1u16 || (b >> 12u16) & 1u16 == 1u16 || (b >> 13u16) & 1u16
            == 1u16 || (b >> 14u16) & 1u16 == 1u16 || (b >> 15u16) & 1u16 == 1u16)) by (bit_vector);
        assert(b & 1u16 == (b >> 0u16) & 1u16) by (bit_vector);
        assert(keys[0] || keys[1] || keys[2] || keys[3] || keys[4] || keys[5] || keys[6]
            || keys[7] || keys[8] || keys[9] || keys[10] || keys[11] || keys[12] || keys[13]
            || keys[14] || keys[15]);
    } else {
        assert forall|k: int| 0 <= k < 16 implies !#[trigger] keys[k] by {
            let kk = k as u16;
            assert(b == 0 ==> (b >> kk) & 1u16 == 0u16) by (bit_vector);
        }
    }
}

/// The keypad after one key event, a key and whether it goes down (`true`)
/// or up (`false`); a keypad is its held-down flags and its last pressed key.
pub open spec fn key_step(state: (Seq<bool>, Option<u8>), event: (u8, bool)) -> (
    Seq<bool>,
    Option<u8>,
) {
    let (key, down) = event;
    if down {
        (state.0.update(key as int, true), Some(key))
    } else {
        (state.0.update(key as int, false), state.1)
    }
}

/// The keypad after a sequence of key events, oldest first.
pub open spec fn keys_after(state: (Seq<bool>, Option<u8>), events: Seq<(u8, bool)>) -> (
    Seq<bool>,
    Option<u8>,
)
    decreases events.len(),
{
    if events.len() == 0 {
        state
    } else {
        key_step(keys_after(state, events.drop_last()), events.last())
    }
}

/// The key of the latest press among `events`, if there is one.
pub open spec fn latest_press(events: Seq<(u8, bool)>) -> Option<u8>
    decreases events.len(),
{
    if events.len() == 0 {
        None
    } else if events.last().1 {
        Some(events.last().0)
    } else {
        latest_press(events.drop_last())
    }
}

/// Across any sequence of presses and releases, the last pressed key is the
/// key of the latest press, or what it was before when nothing was pressed.
pub proof fn lemma_keypad_last_key(state: (Seq<bool>, Option<u8>), events: Seq<(u8, bool)>)
    ensures
        keys_after(state, events).1 == match latest_press(events) {
            Some(k) => Some(k),
            None => state.1,
        },
    decreases events.len(),
{
    if events.len() > 0 {
        lemma_keypad_last_key(state, events.drop_last());
    }
}

/// A keypad fresh from `Keypad::new` records a last pressed key exactly when
/// some key was pressed, and it is the key of the latest press; so
/// `get_last_pressed_key` may be called exactly then.
pub proof fn lemma_fresh_keypad_last_key(events: Seq<(u8, bool)>)
    ensures
        keys_after((Seq::new(16, |k: int| false), None), events).1 == latest_press(events),
{
    lemma_keypad_last_key((Seq::new(16, |k: int| false), None), events);
}

/// The hexadecimal keypad: which of the keys `0x0..=0xF` are held down, and
/// the key that was pressed last.
pub struct Keypad {
    key_pressed: u16,
    last_pressed: Option<u8>,
}

impl Keypad {
    /// While any key is held down, a last-pressed key is recorded, and a
    /// recorded key is always one of the sixteen keys.
    #[verifier::type_invariant]
    spec fn inv(self) -> bool {
        &&& self.key_pressed != 0 ==> self.last_pressed is Some
        &&& self.last_pressed matches Some(k) ==> k < 16
    }

    /// The key mask: bit `k` is set while key `k` is held down.
    pub closed spec fn key_mask(&self) -> u16 {
        self.key_pressed
    }

    /// The held-down flag of each of the sixteen keys.
    pub open spec fn pressed(&self) -> Seq<bool> {
        keys_of(self.key_mask())
    }

    /// The key that was pressed last, if any key was ever pressed.
    pub closed spec fn last_key(&self) -> Option<u8> {
        self.last_pressed
    }

    /// The held-down flags and the last pressed key.
    pub open spec fn state(&self) -> (Seq<bool>, Option<u8>) {
        (self.pressed(), self.last_key())
    }

    /// A keypad with no key held down and no key pressed yet.
    pub fn new() -> (r: Self)
        ensures
            r.pressed() == Seq::new(16, |k: int| false),
            r.last_key() is None,
    {
        let r = Self { key_pressed: 0, last_pressed: None };
        proof {
            assert forall|k: int| 0 <= k < 16 implies !#[trigger] r.pressed()[k] by {
                let kk = k as u16;
                assert((0u16 >> kk) & 1u16 == 0u16) by (bit_vector);
            }
            assert(r.pressed() =~= Seq::new(16, |k: int| false));
        }
        r
    }

    /// Holds `key` down and records it as the last pressed key.
    pub fn press_key(&mut self, key: u8)
        requires
            key < 16,
        ensures
            final(self).pressed() == old(self).pressed().update(key as int, true),
            final(self).last_key() == Some(key),
            final(self).state() == key_step(old(self).state(), (key, true)),
    {
        let old_bits = self.key_pressed;
        self.last_pressed = Some(key);
        self.key_pressed = self.key_pressed | (1u16 << key);
        proof {
            let kb = key as u16;
            assert forall|k: int| 0 <= k < 16 implies #[trigger] self.pressed()[k]
                == old(self).pressed().update(key as int, true)[k] by {
                lemma_set_bit(old_bits, kb, k as u16);
            }
            assert(self.pressed() =~= old(self).pressed().update(key as int, true));
        }
    }

    /// Lets `key` go; the last pressed key stays recorded.
    pub fn release_key(&mut self, key: u8)
        requires
            key < 16,
        ensures
            final(self).pressed() == old(self).pressed().update(key as int, false),
            final(self).last_key() == old(self).last_key(),
            final(self).state() == key_step(old(self).state(), (key, false)),
    {
        proof {
            use_type_invariant(&*self);
            lemma_clear_bit(self.key_pressed, key as u16, 0);
        }
        let old_bits = self.key_pressed;
        self.key_pressed = self.key_pressed & !(1u16 << key);
        proof {
            let kb = key as u16;
            assert forall|k: int| 0 <= k < 16 implies #[trigger] self.pressed()[k]
                == old(self).pressed().update(key as int, false)[k] by {
                lemma_clear_bit(old_bits, kb, k as u16);
            }
            assert(self.pressed() =~= old(self).pressed().update(key as int, false));
        }
    }

    /// Whether `key` is held down.
    pub fn is_key_pressed(&self, key: u8) -> (r: bool)
        requires
            key < 16,
        ensures
            r == self.pressed()[key as int],
    {
        proof {
            lemma_test_bit(self.key_pressed, key as u16);
        }
        self.key_pressed & (1u16 << key) != 0
    }

    /// Whether any key is held down; when one is, a last pressed key is
    /// recorded.
    pub fn is_any_key_pressed(&self) -> (r: bool)
        ensures
            r == any_pressed(self.pressed()),
            r ==> self.last_key() is Some,
    {
        proof {
            use_type_invariant(self);
            lemma_nonzero_has_bit(self.key_pressed);
        }
        self.key_pressed != 0
    }

    /// The key that was pressed last; there must be one.
    pub fn get_last_pressed_key(&self) -> (r: u8)
        requires
            self.last_key() is Some,
        ensures
            self.last_key() == Some(r),
            r < 16,
    {
        proof {
            use_type_invariant(self);
        }
        self.last_pressed.unwrap()
    }
}

} // verus!
