use vstd::prelude::*;

verus! {

/// Number of distinct key codes a `KeyTracker` can follow.
pub const KEY_CODES: u32 = 256;

/// Whether bit `k` of `m` is set.
pub open spec fn bit(m: u128, k: u128) -> bool {
    (m >> k) & 1u128 == 1u128
}

/// Tracks which keys are held down, one bit per key code: codes below 128
/// in `low_mask`, the others in `high_mask`.
pub struct KeyTracker {
    low_mask: u128,
    high_mask: u128,
}

proof fn lemma_or_bit(m: u128, k: u128, j: u128)
    requires
        k < 128,
        j < 128,
    ensures
        bit(m | (1u128 << k), j) == (j == k || bit(m, j)),
{
    assert(bit(m | (1u128 << k), j) == (j == k || bit(m, j))) by (bit_vector)
        requires
            k < 128,
            j < 128,
    ;
}

proof fn lemma_clear_bit(m: u128, k: u128, j: u128)
    requires
        k < 128,
        j < 128,
    ensures
        bit(m & !(1u128 << k), j) == (j != k && bit(m, j)),
{
    assert(bit(m & !(1u128 << k), j) == (j != k && bit(m, j))) by (bit_vector)
        requires
            k < 128,
            j < 128,
    ;
}

proof fn lemma_test_bit(m: u128, k: u128)
    requires
        k < 128,
    ensures
        (m & (1u128 << k) != 0) == bit(m, k),
{
    assert((m & (1u128 << k) != 0) == bit(m, k)) by (bit_vector)
        requires
            k < 128,
    ;
}

proof fn lemma_zero_bit(k: u128)
    requires
        k < 128,
    ensures
        !bit(0, k),
{
    assert(!bit(0, k)) by (bit_vector)
        requires
            k < 128,
    ;
}

impl View for KeyTracker {
    type V = Set<int>;

    /// The set of key codes held down.
    closed spec fn view(&self) -> Set<int> {
        Set::new(|c: int| 0 <= c < KEY_CODES && self.is_down(c))
    }
}

impl KeyTracker {
    /// Whether key `code` is recorded as held down.
    closed spec fn is_down(self, code: int) -> bool {
        if code < 128 {
            bit(self.low_mask, code as u128)
        } else {
            bit(self.high_mask, (code - 128) as u128)
        }
    }

    /// A tracker with no key held down.
    pub fn new() -> (r: KeyTracker)
        ensures
            r@ == Set::<int>::empty(),
    {
        let r = KeyTracker { low_mask: 0, high_mask: 0 };
        assert forall|c: int| 0 <= c < KEY_CODES implies !#[trigger] r.is_down(c) by {
            if c < 128 {
                lemma_zero_bit(c as u128);
            } else {
                lemma_zero_bit((c - 128) as u128);
            }
        }
        assert(r@ =~= Set::<int>::empty()) by {
            assert forall|c: int| !r@.contains(c) by {
                if 0 <= c < KEY_CODES {
                    assert(!r.is_down(c));
                }
            }
        }
        r
    }

    /// Records that key `code` was pressed.
    pub fn key_down(&mut self, code: u32)
        requires
            code < KEY_CODES,
        ensures
            final(self)@ == old(self)@.insert(code as int),
    {
        let ghost old_self = *self;
        if code < 128 {
            self.low_mask = self.low_mask | (1u128 << code);
        } else {
            self.high_mask = self.high_mask | (1u128 << (code - 128));
        }
        proof {
            assert forall|c: int| 0 <= c < KEY_CODES implies #[trigger] self.is_down(c) == (c == code
                || old_self.is_down(c)) by {
                if code < 128 && c < 128 {
                    lemma_or_bit(old_self.low_mask, code as u128, c as u128);
                } else if code >= 128 && c >= 128 {
                    lemma_or_bit(old_self.high_mask, (code - 128) as u128, (c - 128) as u128);
                }
            }
            assert(self@ =~= old_self@.insert(code as int));
        }
    }

    /// Records that key `code` was released.
    pub fn key_up(&mut self, code: u32)
        requires
            code < KEY_CODES,
        ensures
            final(self)@ == old(self)@.remove(code as int),
    {
        let ghost old_self = *self;
        if code < 128 {
            self.low_mask = self.low_mask & !(1u128 << code);
        } else {
            self.high_mask = self.high_mask & !(1u128 << (code - 128));
        }
        proof {
            assert forall|c: int| 0 <= c < KEY_CODES implies #[trigger] self.is_down(c) == (c != code
                && old_self.is_down(c)) by {
                if code < 128 && c < 128 {
                    lemma_clear_bit(old_self.low_mask, code as u128, c as u128);
                } else if code >= 128 && c >= 128 {
                    lemma_clear_bit(old_self.high_mask, (code - 128) as u128, (c - 128) as u128);
                }
            }
            assert(self@ =~= old_self@.remove(code as int));
        }
    }

    /// Whether key `code` is held down.
    pub fn get_state(&self, code: u32) -> (r: bool)
        requires
            code < KEY_CODES,
        ensures
            r == self@.contains(code as int),
    {
        if code < 128 {
            proof {
                lemma_test_bit(self.low_mask, code as u128);
            }
            0 != self.low_mask & (1u128 << code)
        } else {
            proof {
                lemma_test_bit(self.high_mask, (code - 128) as u128);
            }
            0 != self.high_mask & (1u128 << (code - 128))
        }
    }

    /// The direction a pair of opposing keys asks for along one axis: 1
    /// when only `positive` is held, -1 when only `negative` is, 0 when
    /// both or neither are.
    pub fn axis(&self, negative: u32, positive: u32) -> (r: i8)
        requires
            negative < KEY_CODES,
            positive < KEY_CODES,
        ensures
            r == (if self@.contains(positive as int) { 1int } else { 0int }) - (if self@.contains(
                negative as int,
            ) {
                1int
            } else {
                0int
            }),
    {
        let plus: i8 = if self.get_state(positive) { 1 } else { 0 };
        let minus: i8 = if self.get_state(negative) { 1 } else { 0 };
        plus - minus
    }
}

/// Releasing a key that was up before it was pressed leaves the tracker as
/// it was: `key_up` undoes `key_down`, and pressing again changes nothing.
pub proof fn lemma_release_undoes_press(keys: Set<int>, code: int)
    requires
        !keys.contains(code),
    ensures
        keys.insert(code).remove(code) == keys,
        keys.insert(code).insert(code) == keys.insert(code),
{
    assert(keys.insert(code).remove(code) =~= keys);
    assert(keys.insert(code).insert(code) =~= keys.insert(code));
}

} // verus!
