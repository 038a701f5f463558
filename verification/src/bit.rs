//! Small bit-twiddling helpers used by the role and offset sets.

use vstd::prelude::*;

verus! {

/// Number of one bits in the binary expansion of a natural number.
pub open spec fn ones(x: nat) -> nat
    decreases x,
{
    if x == 0 {
        0
    } else {
        x % 2 + ones(x / 2)
    }
}

/// `b` is the lowest bit that is set in `s`: a single bit, set in `s`,
/// with no lower bit of `s` set.
pub open spec fn is_lowest_set_bit(s: isize, b: isize) -> bool {
    &&& b != 0
    &&& b & ((b - 1) as isize) == 0
    &&& s & b == b
    &&& s & ((b - 1) as isize) == 0
}

/// A number has one lowest set bit; so the bit `lowbit` finds and the bit
/// `clear_lowbit` clears are the same, and together with what is left they
/// make the number: `lowbit(s) + clear_lowbit(s) == s`.
pub proof fn lemma_lowest_set_bit_unique(s: isize, b1: isize, b2: isize)
    requires
        is_lowest_set_bit(s, b1),
        is_lowest_set_bit(s, b2),
    ensures
        b1 == b2,
{
    assert(b1 != 0 && b1 & ((b1 - 1) as isize) == 0 && s & b1 == b1 && s & ((b1 - 1) as isize) == 0 && b2
        != 0 && b2 & ((b2 - 1) as isize) == 0 && s & b2 == b2 && s & ((b2 - 1) as isize) == 0 ==> b1 == b2)
        by (bit_vector);
}

/// Clearing the lowest set bit of a positive number takes one set bit
/// away: `popcnt(clear_lowbit(s)) + 1 == popcnt(s)`.
pub proof fn lemma_clear_lowbit_ones(s: isize, b: isize)
    requires
        0 < s,
        is_lowest_set_bit(s, b),
    ensures
        0 <= s - b,
        ones((s - b) as nat) + 1 == ones(s as nat),
    decreases s,
{
    assert(0 < s && b != 0 && b & ((b - 1) as isize) == 0 && s & b == b && s & ((b - 1) as isize) == 0 ==> 0 < b <= s)
        by (bit_vector);
    if b == 1 {
        assert(0 < s && s & 1 == 1 ==> s % 2 == 1) by (bit_vector);
        assert((s - 1) as nat / 2 == s as nat / 2);
        assert(ones((s - 1) as nat) == ((s - 1) as nat) % 2 + ones(((s - 1) as nat) / 2));
        assert(ones(s as nat) == (s as nat) % 2 + ones((s as nat) / 2));
    } else {
        let s2 = s >> 1isize;
        let b2 = b >> 1isize;
        assert(0 < s && b != 1 && b != 0 && b & ((b - 1) as isize) == 0 && s & b == b && s & ((b - 1) as isize) == 0
            ==> s & 1 == 0 && b & 1 == 0 && 0 < s >> 1isize && (b >> 1isize) != 0 && (b >> 1isize) & (((b >> 1isize) - 1) as isize) == 0
            && (s >> 1isize) & (b >> 1isize) == (b >> 1isize) && (s >> 1isize) & (((b >> 1isize) - 1) as isize) == 0) by (bit_vector);
        assert(0 < s ==> s >> 1isize == s / 2) by (bit_vector);
        assert(0 < b ==> b >> 1isize == b / 2) by (bit_vector);
        assert(s & 1 == 0 ==> s % 2 == 0) by (bit_vector);
        assert(b & 1 == 0 ==> b % 2 == 0) by (bit_vector);
        lemma_clear_lowbit_ones(s2, b2);
        assert((s - b) as nat / 2 == (s2 - b2) as nat);
        assert(ones((s - b) as nat) == ((s - b) as nat) % 2 + ones(((s - b) as nat) / 2));
        assert(ones(s as nat) == (s as nat) % 2 + ones((s as nat) / 2));
    }
}

proof fn lemma_ones_bounded(x: nat, k: nat)
    requires
        x < vstd::arithmetic::power2::pow2(k),
    ensures
        ones(x) <= k,
    decreases k,
{
    if k > 0 {
        vstd::arithmetic::power2::lemma_pow2_unfold(k);
        assert(x / 2 < vstd::arithmetic::power2::pow2((k - 1) as nat));
        lemma_ones_bounded(x / 2, (k - 1) as nat);
    } else {
        vstd::arithmetic::power2::lemma2_to64();
    }
}

/// Whether bit `i` of `s` is set.
pub fn test_bit(s: usize, i: usize) -> (r: bool)
    requires
        i < usize::BITS,
    ensures
        r == ((s >> i) % 2 == 1),
{
    assert((s & (1usize << i) != 0) == ((s >> i) % 2 == 1)) by (bit_vector)
        requires
            i < usize::BITS,
    ;
    s & (1usize << i) != 0
}

/// Number of one bits in the two's complement representation of `s`.
pub fn popcnt(s: isize) -> (r: u32)
    ensures
        r == ones(s as usize as nat),
{
    let mut x: usize = s as usize;
    let mut count: usize = 0;
    proof {
        vstd::arithmetic::power2::lemma2_to64();
        assert(usize::BITS <= 64);
        if usize::BITS == 64 {
            assert(x < vstd::arithmetic::power2::pow2(64));
        } else {
            assert(x < vstd::arithmetic::power2::pow2(32));
        }
        lemma_ones_bounded(x as nat, usize::BITS as nat);
    }
    while x != 0
        invariant
            count + ones(x as nat) == ones(s as usize as nat),
            ones(s as usize as nat) <= 64,
        decreases x,
    {
        count = count + x % 2;
        x = x / 2;
    }
    count as u32
}

/// The lowest set bit of `s` (zero when `s` is zero).
pub fn lowbit(s: isize) -> (r: isize)
    requires
        s != isize::MIN,
    ensures
        s == 0 ==> r == 0,
        s != 0 ==> is_lowest_set_bit(s, r),
{
    let r = s & (-s);
    assert(s != 0 ==> {
        let r = s & ((-s) as isize);
        &&& r != 0
        &&& r & ((r - 1) as isize) == 0
        &&& s & r == r
        &&& s & ((r - 1) as isize) == 0
    }) by (bit_vector);
    assert(s == 0 ==> s & ((-s) as isize) == 0) by (bit_vector);
    r
}

/// `s` with its lowest set bit cleared (zero when `s` is zero).
pub fn clear_lowbit(s: isize) -> (r: isize)
    requires
        s != isize::MIN,
    ensures
        s == 0 ==> r == 0,
        s != 0 ==> is_lowest_set_bit(s, (s - r) as isize),
        0 <= s ==> 0 <= r <= s,
{
    let r = s & (s - 1);
    assert(s != 0 ==> {
        let r = s & ((s - 1) as isize);
        let b = (s - r) as isize;
        &&& b != 0
        &&& b & ((b - 1) as isize) == 0
        &&& s & b == b
        &&& s & ((b - 1) as isize) == 0
    }) by (bit_vector);
    assert(s == 0 ==> s & ((s - 1) as isize) == 0) by (bit_vector);
    assert(0 <= s ==> 0 <= s & ((s - 1) as isize) <= s) by (bit_vector);
    r
}

} // verus!
