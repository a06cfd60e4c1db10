use vstd::prelude::*;

verus! {

pub const NUM_KEYS: u8 = 16;

/// Whether key `key` is down in the bit set `keys` (bit `k` for key `k`).
pub open spec fn key_down(keys: u16, key: u8) -> bool {
    key < 16 && (keys >> key as u16) & 1u16 == 1u16
}

/// The lowest key that is down, if any.
pub open spec fn lowest_pressed(keys: u16) -> Option<u8> {
    if exists|k: u8| k < 16 && key_down(keys, k) {
        Some(choose|k: u8| k < 16 && key_down(keys, k) && forall|j: u8| j < k ==> !key_down(keys, j))
    } else {
        None
    }
}

/// The state of sixteen keys, one bit each.
#[derive(Debug, Default, Clone, Copy)]
pub struct Keypad {
    pub keys: u16,
}

impl Keypad {
    pub fn is_key_pressed(&self, key: u8) -> (r: bool)
        requires
            key < NUM_KEYS,
        ensures
            r == key_down(self.keys, key),
    {
        let keys = self.keys;
        let k = key as u16;
        proof {
            lemma_bit_test(keys, k);
        }
        keys & (1u16 << k) != 0
    }

    /// Marks key `key` as down or up.
    pub fn set_key(&mut self, key: u8, pressed: bool)
        requires
            key < NUM_KEYS,
        ensures
            key_down(final(self).keys, key) == pressed,
            forall|j: u8| j != key ==> key_down(final(self).keys, j) == key_down(old(self).keys, j),
    {
        let keys = self.keys;
        let k = key as u16;
        let new_keys = if pressed { keys | (1u16 << k) } else { keys & !(1u16 << k) };
        proof {
            assert forall|j: u8| j != key implies key_down(new_keys, j) == key_down(keys, j) by {
                lemma_set_bit_others(keys, k, j, pressed);
            }
            lemma_set_bit_self(keys, k, pressed);
        }
        self.keys = new_keys;
    }

    /// The lowest-indexed key that is down, or `None` when no key is.
    pub fn pressed_key(&self) -> (r: Option<u8>)
        ensures
            r == lowest_pressed(self.keys),
            r matches Some(k) ==> k < 16 && key_down(self.keys, k),
            r is None ==> forall|k: u8| k < 16 ==> !key_down(self.keys, k),
    {
        let mut i: u8 = 0;
        while i < 16
            invariant
                i <= 16,
                forall|j: u8| j < i ==> !key_down(self.keys, j),
            decreases 16 - i,
        {
            if self.is_key_pressed(i) {
                proof {
                    let c = choose|k: u8| k < 16 && key_down(self.keys, k) && forall|j: u8| j < k ==> !key_down(self.keys, j);
                    assert(i < 16 && key_down(self.keys, i) && forall|j: u8| j < i ==> !key_down(self.keys, j));
                    if c < i {
                    } else if c > i {
                    }
                    assert(c == i);
                }
                return Some(i);
            }
            i = i + 1;
        }
        None
    }
}

proof fn lemma_bit_test(keys: u16, k: u16)
    requires
        k < 16,
    ensures
        (keys & (1u16 << k) != 0) == ((keys >> k) & 1u16 == 1u16),
{
    assert((keys & (1u16 << k) != 0) == ((keys >> k) & 1u16 == 1u16)) by (bit_vector)
        requires
            k < 16,
    ;
}

proof fn lemma_set_bit_others(keys: u16, k: u16, j: u8, pressed: bool)
    requires
        k < 16,
        j != k,
    ensures
        key_down(if pressed { keys | (1u16 << k) } else { keys & !(1u16 << k) }, j)
            == key_down(keys, j),
{
    if j < 16 {
        let jj = j as u16;
        assert(((keys | (1u16 << k)) >> jj) & 1u16 == (keys >> jj) & 1u16) by (bit_vector)
            requires
                k < 16,
                jj < 16,
                jj != k,
        ;
        assert(((keys & !(1u16 << k)) >> jj) & 1u16 == (keys >> jj) & 1u16) by (bit_vector)
            requires
                k < 16,
                jj < 16,
                jj != k,
        ;
    }
}

proof fn lemma_set_bit_self(keys: u16, k: u16, pressed: bool)
    requires
        k < 16,
    ensures
        key_down(if pressed { keys | (1u16 << k) } else { keys & !(1u16 << k) }, k as u8)
            == pressed,
{
    assert(((keys | (1u16 << k)) >> k) & 1u16 == 1u16) by (bit_vector)
        requires
            k < 16,
    ;
    assert(((keys & !(1u16 << k)) >> k) & 1u16 == 0u16) by (bit_vector)
        requires
            k < 16,
    ;
}

} // verus!
