//! Bit masks read as sets of flag positions.

use vstd::prelude::*;

verus! {

/// Whether bit `i` of `bits` is set.
pub open spec fn has_flag(bits: u8, i: int) -> bool {
    0 <= i < 8 && (bits >> (i as u8)) & 1 == 1
}

/// The positions of the bits that are set in `bits`.
pub open spec fn flag_set(bits: u8) -> Set<int> {
    Set::new(|i: int| has_flag(bits, i))
}

/// The mask 0 has no set bit.
pub proof fn lemma_flag_set_zero()
    ensures
        flag_set(0u8) == Set::<int>::empty(),
{
    assert forall|i: int| !has_flag(0u8, i) by {
        if 0 <= i < 8 {
            let k: u8 = i as u8;
            assert(!((0u8 >> k) & 1 == 1)) by (bit_vector);
        }
    }
    assert(flag_set(0u8) =~= Set::<int>::empty());
}

/// The mask `1 << n` has the single set bit `n`.
pub proof fn lemma_single_flag(n: u8)
    requires
        n < 8,
    ensures
        flag_set(1u8 << n) == set![n as int],
        n == 0 ==> 1u8 << n == 0x01,
        n == 1 ==> 1u8 << n == 0x02,
        n == 2 ==> 1u8 << n == 0x04,
        n == 3 ==> 1u8 << n == 0x08,
        n == 4 ==> 1u8 << n == 0x10,
        n == 5 ==> 1u8 << n == 0x20,
        n == 6 ==> 1u8 << n == 0x40,
        n == 7 ==> 1u8 << n == 0x80,
{
    assert(1u8 << 0u8 == 0x01 && 1u8 << 1u8 == 0x02 && 1u8 << 2u8 == 0x04 && 1u8 << 3u8 == 0x08
        && 1u8 << 4u8 == 0x10 && 1u8 << 5u8 == 0x20 && 1u8 << 6u8 == 0x40 && 1u8 << 7u8 == 0x80)
        by (bit_vector);
    assert forall|i: int| has_flag(1u8 << n, i) == (i == n) by {
        if 0 <= i < 8 {
            let k: u8 = i as u8;
            assert(n < 8 && k < 8 ==> ((((1u8 << n) >> k) & 1 == 1) == (k == n))) by (bit_vector);
        }
    }
    assert(flag_set(1u8 << n) =~= set![n as int]);
}

/// A mask is determined by the positions of its set bits.
pub proof fn lemma_flag_set_injective(a: u8, b: u8)
    requires
        flag_set(a) == flag_set(b),
    ensures
        a == b,
{
    assert forall|i: int| 0 <= i < 8 implies has_flag(a, i) == has_flag(b, i) by {
        assert(flag_set(a).contains(i) == has_flag(a, i));
        assert(flag_set(b).contains(i) == has_flag(b, i));
    }
    assert(has_flag(a, 0) == has_flag(b, 0));
    assert(has_flag(a, 1) == has_flag(b, 1));
    assert(has_flag(a, 2) == has_flag(b, 2));
    assert(has_flag(a, 3) == has_flag(b, 3));
    assert(has_flag(a, 4) == has_flag(b, 4));
    assert(has_flag(a, 5) == has_flag(b, 5));
    assert(has_flag(a, 6) == has_flag(b, 6));
    assert(has_flag(a, 7) == has_flag(b, 7));
    assert(((a >> 0u8) & 1 == 1) == ((b >> 0u8) & 1 == 1) && ((a >> 1u8) & 1 == 1) == ((b >> 1u8)
        & 1 == 1) && ((a >> 2u8) & 1 == 1) == ((b >> 2u8) & 1 == 1) && ((a >> 3u8) & 1 == 1) == ((b
        >> 3u8) & 1 == 1) && ((a >> 4u8) & 1 == 1) == ((b >> 4u8) & 1 == 1) && ((a >> 5u8) & 1
        == 1) == ((b >> 5u8) & 1 == 1) && ((a >> 6u8) & 1 == 1) == ((b >> 6u8) & 1 == 1) && ((a
        >> 7u8) & 1 == 1) == ((b >> 7u8) & 1 == 1) ==> a == b) by (bit_vector);
}

/// The set bits of `a | b` are those of `a` together with those of `b`.
pub proof fn lemma_flag_set_or(a: u8, b: u8)
    ensures
        flag_set(a | b) == flag_set(a).union(flag_set(b)),
{
    assert forall|i: int| has_flag(a | b, i) == (has_flag(a, i) || has_flag(b, i)) by {
        if 0 <= i < 8 {
            let k: u8 = i as u8;
            assert((((a | b) >> k) & 1 == 1) == (((a >> k) & 1 == 1) || ((b >> k) & 1 == 1)))
                by (bit_vector);
        }
    }
    assert(flag_set(a | b) =~= flag_set(a).union(flag_set(b)));
}

/// The set bits of `a & !b` are those of `a` that `b` lacks.
pub proof fn lemma_flag_set_and_not(a: u8, b: u8)
    ensures
        flag_set(a & !b) == flag_set(a).difference(flag_set(b)),
{
    assert forall|i: int| has_flag(a & !b, i) == (has_flag(a, i) && !has_flag(b, i)) by {
        if 0 <= i < 8 {
            let k: u8 = i as u8;
            assert((((a & !b) >> k) & 1 == 1) == (((a >> k) & 1 == 1) && !((b >> k) & 1 == 1)))
                by (bit_vector);
        }
    }
    assert(flag_set(a & !b) =~= flag_set(a).difference(flag_set(b)));
}

/// `a` holds every set bit of `b` exactly when masking `a` by `b` gives `b`.
pub proof fn lemma_flag_set_subset(a: u8, b: u8)
    ensures
        (a & b == b) == flag_set(b).subset_of(flag_set(a)),
{
    if a & b == b {
        assert forall|i: int| has_flag(b, i) implies has_flag(a, i) by {
            let k: u8 = i as u8;
            assert(a & b == b && ((b >> k) & 1 == 1) ==> ((a >> k) & 1 == 1)) by (bit_vector);
        }
    } else {
        lemma_flag_set_and(a, b);
        if flag_set(b).subset_of(flag_set(a)) {
            assert(flag_set(a & b) =~= flag_set(b));
            lemma_flag_set_injective(a & b, b);
        }
    }
}

/// The set bits of `a & b` are those that `a` and `b` share.
pub proof fn lemma_flag_set_and(a: u8, b: u8)
    ensures
        flag_set(a & b) == flag_set(a).intersect(flag_set(b)),
{
    assert forall|i: int| has_flag(a & b, i) == (has_flag(a, i) && has_flag(b, i)) by {
        if 0 <= i < 8 {
            let k: u8 = i as u8;
            assert((((a & b) >> k) & 1 == 1) == (((a >> k) & 1 == 1) && ((b >> k) & 1 == 1)))
                by (bit_vector);
        }
    }
    assert(flag_set(a & b) =~= flag_set(a).intersect(flag_set(b)));
}

} // verus!
