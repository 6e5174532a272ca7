//! Bits of a word.

use vstd::prelude::*;
use vstd::std_specs::bits::axiom_u32_trailing_zeros;

verus! {

/// Whether a bit of a word is set.
pub open spec fn bit_is_set(v: u32, bit: nat) -> bool {
    bit < 32 && (v >> (bit as u32)) & 1u32 == 1u32
}

/// The positions below a bound whose bits are set, in ascending order.
pub open spec fn bits_below(v: u32, bound: nat) -> Seq<usize>
    decreases bound,
{
    if bound == 0 {
        Seq::empty()
    } else {
        let bit = (bound - 1) as nat;
        if bit_is_set(v, bit) {
            bits_below(v, bit).push(bit as usize)
        } else {
            bits_below(v, bit)
        }
    }
}

/// The positions of the bits that are set, in ascending order.
pub open spec fn set_bits(v: u32) -> Seq<usize> {
    bits_below(v, 32)
}

proof fn lemma_bits_below(v: u32, bound: nat)
    requires
        bound <= 32,
    ensures
        forall|i: int, j: int|
            0 <= i < j < bits_below(v, bound).len() ==> bits_below(v, bound)[i] < bits_below(
                v,
                bound,
            )[j],
        forall|bit: usize|
            #![trigger bits_below(v, bound).contains(bit)]
            #![trigger bit_is_set(v, bit as nat)]
            bits_below(v, bound).contains(bit) <==> bit < bound && bit_is_set(v, bit as nat),
    decreases bound,
{
    if bound > 0 {
        let last = (bound - 1) as usize;
        let shorter = bits_below(v, (bound - 1) as nat);
        let all = bits_below(v, bound);
        lemma_bits_below(v, (bound - 1) as nat);
        assert forall|i: int| 0 <= i < shorter.len() implies shorter[i] < last by {
            assert(shorter.contains(shorter[i]));
        }
        assert forall|bit: usize|
            #![trigger all.contains(bit)]
            all.contains(bit) <==> bit < bound && bit_is_set(v, bit as nat) by {
            if bit < bound && bit_is_set(v, bit as nat) {
                if bit == last {
                    assert(all[all.len() - 1] == bit);
                } else {
                    assert(shorter.contains(bit));
                    let i = choose|i: int| 0 <= i < shorter.len() && shorter[i] == bit;
                    assert(all[i] == bit);
                }
            }
            if all.contains(bit) {
                let i = choose|i: int| 0 <= i < all.len() && all[i] == bit;
                if i < shorter.len() {
                    assert(shorter[i] == bit);
                    assert(shorter.contains(bit));
                }
            }
        }
    }
}

/// Two lists in ascending order that hold the same positions are the same.
proof fn lemma_ascending_is_unique(a: Seq<usize>, b: Seq<usize>)
    requires
        forall|i: int, j: int| 0 <= i < j < a.len() ==> a[i] < a[j],
        forall|i: int, j: int| 0 <= i < j < b.len() ==> b[i] < b[j],
        forall|bit: usize| #[trigger] a.contains(bit) <==> b.contains(bit),
    ensures
        a == b,
    decreases a.len(),
{
    if a.len() == 0 {
        if b.len() > 0 {
            assert(b.contains(b[0]));
            assert(a.contains(b[0]));
        }
        assert(a =~= b);
    } else {
        assert(a.contains(a.last()));
        assert(b.contains(a.last()));
        assert(b.contains(b.last()));
        assert(a.contains(b.last()));
        let i = choose|i: int| 0 <= i < b.len() && b[i] == a.last();
        let j = choose|j: int| 0 <= j < a.len() && a[j] == b.last();
        assert(a.last() <= b.last());
        assert(b.last() <= a.last());
        let x = a.drop_last();
        let y = b.drop_last();
        assert forall|bit: usize| #[trigger] x.contains(bit) <==> y.contains(bit) by {
            if x.contains(bit) {
                let k = choose|k: int| 0 <= k < x.len() && x[k] == bit;
                assert(a[k] == bit);
                assert(a.contains(bit));
                let m = choose|m: int| 0 <= m < b.len() && b[m] == bit;
                assert(y[m] == bit);
            }
            if y.contains(bit) {
                let k = choose|k: int| 0 <= k < y.len() && y[k] == bit;
                assert(b[k] == bit);
                assert(b.contains(bit));
                assert(a.contains(bit));
                let m = choose|m: int| 0 <= m < a.len() && a[m] == bit;
                assert(x[m] == bit);
            }
        }
        lemma_ascending_is_unique(x, y);
        assert(a =~= x.push(a.last()));
        assert(b =~= y.push(b.last()));
    }
}

/// The positions of the bits that are set, in ascending order.
///
/// A word whose only bit is the highest one has no positions to give: past it
/// lies no bit to go on from.
pub fn iter_bits(v: u32) -> (bits: Vec<usize>)
    requires
        v != 0x8000_0000,
    ensures
        bits@ == set_bits(v),
        forall|i: int| 0 <= i < bits@.len() ==> #[trigger] bits@[i] < 32,
{
    let ghost word = v;
    let mut v = v;
    let mut index: u32 = 0;
    let mut bits: Vec<usize> = Vec::new();
    proof {
        assert(word >> 0u32 == word) by (bit_vector);
    }
    while v != 0
        invariant
            index <= 32,
            v != 0x8000_0000,
            index < 32 ==> v == word >> index,
            index == 32 ==> v == 0,
            forall|i: int, j: int| 0 <= i < j < bits@.len() ==> bits@[i] < bits@[j],
            forall|i: int| 0 <= i < bits@.len() ==> #[trigger] bits@[i] < index,
            forall|bit: usize| bits@.contains(bit) <==> bit < index && bit_is_set(word, bit as nat),
        decreases 32 - index,
    {
        let shift = v.trailing_zeros();
        let ghost before = bits@;
        let ghost v0 = v;
        let ghost i0 = index;
        proof {
            axiom_u32_trailing_zeros(v);
            assert(v << 1u32 == 0u32 ==> v == 0u32 || v == 0x8000_0000u32) by (bit_vector);
            assert(shift < 31) by {
                if shift == 31 {
                    assert(v << 1u32 == 0u32);
                }
            }
            assert((v0 >> shift) & 1u32 == 1u32);
            assert(index + shift < 32) by {
                if index + shift >= 32 {
                    assert(((word >> i0) >> shift) & 1u32 == 0u32) by (bit_vector)
                        requires
                            i0 < 32,
                            shift < 32,
                            i0 + shift >= 32,
                    ;
                }
            }
        }
        v = v >> (shift + 1);
        let bit = index + shift;
        index = index + shift + 1;
        bits.push(bit as usize);
        proof {
            let next = index;
            assert(next < 32 ==> (word >> i0) >> ((shift + 1) as u32) == word >> next) by (bit_vector)
                requires
                    next == i0 + shift + 1,
                    shift < 31,
                    i0 < 32,
            ;
            assert(next == 32 ==> (word >> i0) >> ((shift + 1) as u32) == 0u32) by (bit_vector)
                requires
                    next == i0 + shift + 1,
                    shift < 31,
                    i0 < 32,
            ;
            assert(v0 >> ((shift + 1) as u32) != 0x8000_0000u32) by (bit_vector)
                requires
                    shift < 31,
            ;
            assert forall|b: usize| bits@.contains(b) <==> b < index && bit_is_set(word, b as nat) by {
                if b < i0 {
                    if before.contains(b) {
                        let k = choose|k: int| 0 <= k < before.len() && before[k] == b;
                        assert(bits@[k] == b);
                    }
                    if bits@.contains(b) {
                        let k = choose|k: int| 0 <= k < bits@.len() && bits@[k] == b;
                        assert(before[k] == b);
                    }
                } else if b < index {
                    let j = (b - i0) as u32;
                    assert(((word >> i0) >> j) & 1u32 == (word >> ((i0 + j) as u32)) & 1u32) by (bit_vector)
                        requires
                            i0 + j < 32,
                    ;
                    if j < shift {
                        assert((v0 >> j) & 1u32 == 0u32);
                        assert(!bit_is_set(word, b as nat));
                        if bits@.contains(b) {
                            let k = choose|k: int| 0 <= k < bits@.len() && bits@[k] == b;
                            assert(k < before.len() ==> before[k] == b);
                        }
                    } else {
                        assert(bits@[bits@.len() - 1] == b);
                    }
                } else {
                    if bits@.contains(b) {
                        let k = choose|k: int| 0 <= k < bits@.len() && bits@[k] == b;
                        assert(k < before.len() ==> before[k] == b);
                    }
                }
            }
        }
    }
    proof {
        assert forall|b: usize| bits@.contains(b) <==> bit_is_set(word, b as nat) by {
            if index <= b < 32 {
                let j = (b - index) as u32;
                assert((word >> ((index + j) as u32)) & 1u32 == 0u32) by (bit_vector)
                    requires
                        index < 32,
                        word >> index == 0u32,
                        index + j < 32,
                ;
            }
        }
        lemma_bits_below(word, 32);
        assert forall|b: usize| #[trigger] bits@.contains(b) <==> set_bits(word).contains(b) by {
            assert(bit_is_set(word, b as nat) ==> b < 32);
        }
        lemma_ascending_is_unique(bits@, set_bits(word));
    }
    bits
}

/// The positions that a word gives are exactly those of its bits, in ascending
/// order.
pub proof fn set_bits_are_the_bits(v: u32)
    ensures
        forall|i: int, j: int|
            0 <= i < j < set_bits(v).len() ==> set_bits(v)[i] < set_bits(v)[j],
        forall|bit: usize|
            #[trigger] set_bits(v).contains(bit) <==> bit_is_set(v, bit as nat),
{
    lemma_bits_below(v, 32);
}

/// A word gives the position of each of its bits, and of no other, in ascending
/// order.
pub proof fn words_give_their_bits(v: u32, bits: Vec<usize>, bit: usize)
    requires
        v != 0x8000_0000,
        call_ensures(iter_bits, (v,), bits),
    ensures
        bits@.contains(bit) <==> bit < 32 && (v >> (bit as u32)) & 1 == 1,
        forall|i: int, j: int|
            0 <= i < j < bits@.len() ==> (#[trigger] bits@[i]) < (#[trigger] bits@[j]),
{
    set_bits_are_the_bits(v);
}

} // verus!
