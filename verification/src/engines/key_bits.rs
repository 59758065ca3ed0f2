//! Pressed-key sets packed as bits: virtual keys below 256 map to one bit in one of
//! four 64-bit slots, so the keyboard hook can record a key without a lock.

use vstd::prelude::*;

verus! {

/// Keys per slot.
pub const VK_BITS_PER_SLOT: usize = 64;

/// Number of slots; keys from `VK_BITS_PER_SLOT * PRESSED_KEY_SLOT_COUNT` up have no bit.
pub const PRESSED_KEY_SLOT_COUNT: usize = 4;

/// The slot of virtual key `vk`.
pub open spec fn slot_of(vk: u16) -> int {
    vk as int / 64
}

/// The bit of virtual key `vk` within its slot.
pub open spec fn bit_of(vk: u16) -> u64 {
    1u64 << ((vk % 64) as u64)
}

/// Whether `bits` records virtual key `vk`.
pub open spec fn has_key(bits: Seq<u64>, vk: u16) -> bool {
    vk < 256 && bits[slot_of(vk)] & bit_of(vk) != 0
}

/// The slot and bit of a key, none for a key past the last slot.
pub fn vk_to_slot_bit(vk: u16) -> (r: Option<(usize, u64)>)
    ensures
        r == (if vk < 256 {
            Some(((vk / 64) as usize, bit_of(vk)))
        } else {
            None::<(usize, u64)>
        }),
{
    let v = vk as usize;
    let slot_index = v / VK_BITS_PER_SLOT;
    if slot_index >= PRESSED_KEY_SLOT_COUNT {
        return None;
    }
    let shift = (vk % 64) as u64;
    Some((slot_index, 1u64 << shift))
}

proof fn lemma_shift_distinct(a: u64, b: u64)
    requires
        a < 64,
        b < 64,
        a != b,
    ensures
        (1u64 << a) != (1u64 << b),
        (1u64 << a) & (1u64 << b) == 0,
{
    assert((1u64 << a) != (1u64 << b)) by (bit_vector)
        requires
            a < 64,
            b < 64,
            a != b,
    ;
    assert((1u64 << a) & (1u64 << b) == 0) by (bit_vector)
        requires
            a < 64,
            b < 64,
            a != b,
    ;
}

/// Two different keys below 256 never share both slot and bit, so pressing one never
/// reads as pressing the other.
pub proof fn lemma_slot_bit_injective(a: u16, b: u16)
    requires
        a < 256,
        b < 256,
        a != b,
    ensures
        slot_of(a) != slot_of(b) || bit_of(a) != bit_of(b),
        slot_of(a) == slot_of(b) ==> bit_of(a) & bit_of(b) == 0,
{
    if slot_of(a) == slot_of(b) {
        assert(a % 64 != b % 64);
        lemma_shift_distinct((a % 64) as u64, (b % 64) as u64);
    }
}

proof fn lemma_or_bit(x: u64, a: u64, b: u64)
    requires
        a < 64,
        b < 64,
    ensures
        ((x | (1u64 << a)) & (1u64 << b) != 0) == ((x & (1u64 << b) != 0) || a == b),
{
    assert(((x | (1u64 << a)) & (1u64 << b) != 0) == ((x & (1u64 << b) != 0) || a == b))
        by (bit_vector)
        requires
            a < 64,
            b < 64,
    ;
}

proof fn lemma_and_not_bit(x: u64, a: u64, b: u64)
    requires
        a < 64,
        b < 64,
    ensures
        ((x & !(1u64 << a)) & (1u64 << b) != 0) == ((x & (1u64 << b) != 0) && a != b),
{
    assert(((x & !(1u64 << a)) & (1u64 << b) != 0) == ((x & (1u64 << b) != 0) && a != b))
        by (bit_vector)
        requires
            a < 64,
            b < 64,
    ;
}

proof fn lemma_xor_bit(x: u64, a: u64, b: u64)
    requires
        a < 64,
        b < 64,
    ensures
        ((x ^ (1u64 << a)) & (1u64 << b) != 0) == (if a == b {
            x & (1u64 << b) == 0
        } else {
            x & (1u64 << b) != 0
        }),
{
    assert(((x ^ (1u64 << a)) & (1u64 << b) != 0) == (if a == b {
        x & (1u64 << b) == 0
    } else {
        x & (1u64 << b) != 0
    })) by (bit_vector)
        requires
            a < 64,
            b < 64,
    ;
}

proof fn lemma_and_mask(x: u64, m: u64, b: u64)
    requires
        b < 64,
    ensures
        ((x & m) & (1u64 << b) != 0) == ((x & (1u64 << b) != 0) && (m & (1u64 << b) != 0)),
{
    assert(((x & m) & (1u64 << b) != 0) == ((x & (1u64 << b) != 0) && (m & (1u64 << b) != 0)))
        by (bit_vector)
        requires
            b < 64,
    ;
}

proof fn lemma_zero_bit(b: u64)
    requires
        b < 64,
    ensures
        0u64 & (1u64 << b) == 0,
{
    assert(0u64 & (1u64 << b) == 0) by (bit_vector)
        requires
            b < 64,
    ;
}

/// Whether slot `slot_index` of a snapshot has bit `key_bit` set.
pub fn pressed_key_snapshot_contains(snapshot: &[u64; 4], slot_index: usize, key_bit: u64) -> (b:
    bool)
    ensures
        b == (slot_index < 4 && snapshot@[slot_index as int] & key_bit != 0),
{
    if slot_index < PRESSED_KEY_SLOT_COUNT {
        snapshot[slot_index] & key_bit != 0
    } else {
        false
    }
}

/// Whether any slot is non-zero.
pub fn pressed_key_snapshot_has_any(snapshot: &[u64; 4]) -> (b: bool)
    ensures
        b == (snapshot@[0] != 0 || snapshot@[1] != 0 || snapshot@[2] != 0 || snapshot@[3] != 0),
{
    snapshot[0] != 0 || snapshot[1] != 0 || snapshot[2] != 0 || snapshot[3] != 0
}

/// Records key `vk` (a key with no bit is ignored).
pub fn set_key_bit(bits: &mut [u64; 4], vk: u16)
    ensures
        forall|w: u16|
            has_key(final(bits)@, w) == (if w == vk && vk < 256 {
                true
            } else {
                has_key(old(bits)@, w)
            }),
{
    let ghost before = bits@;
    match vk_to_slot_bit(vk) {
        Some((s, bit)) => {
            bits[s] = bits[s] | bit;
        },
        None => {},
    }
    proof {
        assert forall|w: u16|
            has_key(bits@, w) == (if w == vk && vk < 256 {
                true
            } else {
                has_key(before, w)
            }) by {
            if w < 256 && vk < 256 {
                if slot_of(w) == slot_of(vk) {
                    lemma_or_bit(before[slot_of(vk)], (vk % 64) as u64, (w % 64) as u64);
                    if w != vk {
                        assert(w % 64 != vk % 64);
                    }
                } else {
                    assert(bits@[slot_of(w)] == before[slot_of(w)]);
                }
            }
        }
    }
}

/// Forgets key `vk`.
pub fn clear_key_bit(bits: &mut [u64; 4], vk: u16)
    ensures
        forall|w: u16|
            has_key(final(bits)@, w) == (if w == vk {
                false
            } else {
                has_key(old(bits)@, w)
            }),
{
    let ghost before = bits@;
    match vk_to_slot_bit(vk) {
        Some((s, bit)) => {
            bits[s] = bits[s] & !bit;
        },
        None => {},
    }
    proof {
        assert forall|w: u16|
            has_key(bits@, w) == (if w == vk {
                false
            } else {
                has_key(before, w)
            }) by {
            if w < 256 && vk < 256 {
                if slot_of(w) == slot_of(vk) {
                    lemma_and_not_bit(before[slot_of(vk)], (vk % 64) as u64, (w % 64) as u64);
                    if w != vk {
                        assert(w % 64 != vk % 64);
                    }
                } else {
                    assert(bits@[slot_of(w)] == before[slot_of(w)]);
                }
            }
        }
    }
}

/// Flips key `vk`.
pub fn flip_key_bit(bits: &mut [u64; 4], vk: u16)
    ensures
        forall|w: u16|
            has_key(final(bits)@, w) == (if w == vk && vk < 256 {
                !has_key(old(bits)@, w)
            } else {
                has_key(old(bits)@, w)
            }),
{
    if let Some((s, bit)) = vk_to_slot_bit(vk) {
        let ghost before = bits@;
        bits[s] = bits[s] ^ bit;
        proof {
            assert forall|w: u16|
                has_key(bits@, w) == (if w == vk && vk < 256 {
                    !has_key(before, w)
                } else {
                    has_key(before, w)
                }) by {
                if w < 256 {
                    if slot_of(w) == s {
                        lemma_xor_bit(before[s as int], (vk % 64) as u64, (w % 64) as u64);
                        if w != vk {
                            assert(w % 64 != vk % 64);
                        }
                    } else {
                        assert(bits@[slot_of(w)] == before[slot_of(w)]);
                    }
                }
            }
        }
    } else {
        assert forall|w: u16|
            has_key(bits@, w) == (if w == vk && vk < 256 {
                !has_key(old(bits)@, w)
            } else {
                has_key(old(bits)@, w)
            }) by {}
    }
}

/// No key recorded.
pub fn clear_pressed_keys(bits: &mut [u64; 4])
    ensures
        forall|w: u16| !has_key(final(bits)@, w),
        final(bits)@ == seq![0u64, 0u64, 0u64, 0u64],
{
    *bits = [0u64, 0u64, 0u64, 0u64];
    proof {
        assert forall|w: u16| !has_key(bits@, w) by {
            if w < 256 {
                lemma_zero_bit((w % 64) as u64);
            }
        }
        assert(bits@ =~= seq![0u64, 0u64, 0u64, 0u64]);
    }
}

/// Keeps exactly the recorded keys that are in `retained_vks`.
pub fn retain_pressed_keys(bits: &mut [u64; 4], retained_vks: &Vec<u16>)
    ensures
        forall|w: u16|
            has_key(final(bits)@, w) == (has_key(old(bits)@, w) && retained_vks@.contains(w)),
{
    let mut masks: [u64; 4] = [0u64, 0u64, 0u64, 0u64];
    proof {
        assert forall|w: u16| !has_key(masks@, w) by {
            if w < 256 {
                lemma_zero_bit((w % 64) as u64);
            }
        }
    }
    let mut i: usize = 0;
    while i < retained_vks.len()
        invariant
            i <= retained_vks@.len(),
            forall|w: u16|
                has_key(masks@, w) == (w < 256 && exists|j: int|
                    0 <= j < i && retained_vks@[j] == w),
        decreases retained_vks.len() - i,
    {
        let ghost before = masks@;
        let v = retained_vks[i];
        set_key_bit(&mut masks, v);
        proof {
            assert forall|w: u16|
                has_key(masks@, w) == (w < 256 && exists|j: int|
                    0 <= j < i + 1 && retained_vks@[j] == w) by {
                if w < 256 && w == v {
                    assert(retained_vks@[i as int] == w);
                }
                if w < 256 && (exists|j: int| 0 <= j < i + 1 && retained_vks@[j] == w) {
                    let j = choose|j: int| 0 <= j < i + 1 && retained_vks@[j] == w;
                    if j < i {
                        assert(has_key(before, w));
                    }
                }
            }
        }
        i = i + 1;
    }
    let ghost before = bits@;
    bits[0] = bits[0] & masks[0];
    bits[1] = bits[1] & masks[1];
    bits[2] = bits[2] & masks[2];
    bits[3] = bits[3] & masks[3];
    proof {
        assert forall|w: u16|
            has_key(bits@, w) == (has_key(before, w) && retained_vks@.contains(w)) by {
            if w < 256 {
                let s = slot_of(w);
                lemma_and_mask(before[s], masks@[s], (w % 64) as u64);
                assert(bits@[s] == before[s] & masks@[s]);
                if retained_vks@.contains(w) {
                    let j = choose|j: int| 0 <= j < retained_vks@.len() && retained_vks@[j] == w;
                    assert(has_key(masks@, w));
                }
                if has_key(masks@, w) {
                    let j = choose|j: int| 0 <= j < retained_vks@.len() && retained_vks@[j] == w;
                    assert(retained_vks@.contains(w));
                }
            }
        }
    }
}

} // verus!
