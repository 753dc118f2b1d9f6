//! Averages of the values held by a [`MemoryCacher`].
//!
//! Each element type has its own average, named after the type of its divisor as
//! in `average_u32`. The values are added up in a type wide enough that no partial
//! sum overflows (for the 128-bit types, in the type itself, where the caller
//! vouches that the partial sums fit), and the total is divided by the count,
//! rounding toward zero as Rust's integer division does. An empty history has the
//! average `0`.
use crate::memcache::MemoryCacher;
use vstd::arithmetic::div_mod::{lemma_div_is_ordered, lemma_div_multiples_vanish, lemma_div_pos_is_pos};
use vstd::prelude::*;

verus! {

/// The sum of `s`.
pub open spec fn sum_of(s: Seq<int>) -> int
    decreases s.len(),
{
    if s.len() == 0 {
        0
    } else {
        sum_of(s.drop_last()) + s.last()
    }
}

/// `a / b`, rounded toward zero.
pub open spec fn trunc_div(a: int, b: int) -> int {
    if a >= 0 {
        a / b
    } else {
        -((-a) / b)
    }
}

/// The mean of `s`, rounded toward zero; `0` for an empty sequence.
pub open spec fn mean_of(s: Seq<int>) -> int {
    if s.len() == 0 {
        0
    } else {
        trunc_div(sum_of(s), s.len() as int)
    }
}

/// The average of an empty history is zero, whatever its element type: no count
/// of zero is divided by.
pub proof fn lemma_mean_of_empty(s: Seq<int>)
    requires
        s.len() == 0,
    ensures
        mean_of(s) == 0,
{
}

/// The average of a history that holds a single value is that value.
pub proof fn lemma_mean_of_single(x: int)
    ensures
        mean_of(seq![x]) == x,
{
    let s = seq![x];
    assert(s.drop_last() =~= Seq::<int>::empty());
    assert(sum_of(s.drop_last()) == 0);
    assert(s.last() == x);
    assert(sum_of(s) == x);
    assert(x / 1 == x);
    assert((-x) / 1 == -x);
}

/// Whether every partial sum of `s` lies in `[lo, hi]`.
pub open spec fn partial_sums_within(s: Seq<int>, lo: int, hi: int) -> bool {
    forall|i: int| 0 <= i <= s.len() ==> lo <= #[trigger] sum_of(s.take(i)) <= hi
}

/// The sum of the first `i + 1` values is that of the first `i` plus the next one.
proof fn lemma_sum_of_take_step(s: Seq<int>, i: int)
    requires
        0 <= i < s.len(),
    ensures
        sum_of(s.take(i + 1)) == sum_of(s.take(i)) + s[i],
{
    assert(s.take(i + 1).drop_last() =~= s.take(i));
}

/// A total of `len` values, each in `[lo, hi]`, divided by `len` and rounded toward
/// zero, lies in `[lo, hi]`.
proof fn lemma_mean_bounds(total: int, len: int, lo: int, hi: int)
    requires
        len > 0,
        lo <= 0 <= hi,
        len * lo <= total <= len * hi,
    ensures
        lo <= trunc_div(total, len) <= hi,
{
    if total >= 0 {
        lemma_div_pos_is_pos(total, len);
        lemma_div_is_ordered(total, len * hi, len);
        lemma_div_multiples_vanish(hi, len);
    } else {
        lemma_div_pos_is_pos(-total, len);
        assert(-total <= len * (-lo)) by (nonlinear_arith)
            requires
                len * lo <= total,
        ;
        lemma_div_is_ordered(-total, len * (-lo), len);
        lemma_div_multiples_vanish(-lo, len);
    }
}

/// A value divided by a positive count and rounded toward zero lies between `0`
/// and the value.
proof fn lemma_trunc_div_shrinks(total: int, len: int)
    requires
        len > 0,
    ensures
        total >= 0 ==> 0 <= trunc_div(total, len) <= total,
        total < 0 ==> total <= trunc_div(total, len) <= 0,
{
    let a = if total >= 0 {
        total
    } else {
        -total
    };
    assert(len * a >= a) by (nonlinear_arith)
        requires
            len > 0,
            a >= 0,
    ;
    lemma_mean_bounds(a, len, 0, a);
}

impl<const N: usize> MemoryCacher<u8, N> {
    /// The mean of the values held, rounded toward zero; `0` where the history is
    /// empty.
    #[must_use]
    pub fn average_u8(&self) -> (r: u8)
        ensures
            r as int == mean_of(self.slots().map_values(|x: u8| x as int)),
    {
        let all = self.get_all_copy();
        let ghost vals = all@.map_values(|x: u8| x as int);
        if all.len() == 0 {
            return 0;
        }
        let mut total: u128 = 0;
        let mut i: usize = 0;
        while i < all.len()
            invariant
                i <= all@.len(),
                vals == all@.map_values(|x: u8| x as int),
                total as int == sum_of(vals.take(i as int)),
                i * (0) <= total <= i * 255,
            decreases all@.len() - i,
        {
            proof {
                lemma_sum_of_take_step(vals, i as int);
            }
            total = total + all[i] as u128;
            i = i + 1;
        }
        proof {
            assert(vals.take(i as int) =~= vals);
            lemma_mean_bounds(total as int, i as int, 0, 255);
        }
        (total / (i as u128)) as u8
    }
}

impl<const N: usize> MemoryCacher<u16, N> {
    /// The mean of the values held, rounded toward zero; `0` where the history is
    /// empty.
    #[must_use]
    pub fn average_u16(&self) -> (r: u16)
        ensures
            r as int == mean_of(self.slots().map_values(|x: u16| x as int)),
    {
        let all = self.get_all_copy();
        let ghost vals = all@.map_values(|x: u16| x as int);
        if all.len() == 0 {
            return 0;
        }
        let mut total: u128 = 0;
        let mut i: usize = 0;
        while i < all.len()
            invariant
                i <= all@.len(),
                vals == all@.map_values(|x: u16| x as int),
                total as int == sum_of(vals.take(i as int)),
                i * (0) <= total <= i * 0xffff,
            decreases all@.len() - i,
        {
            proof {
                lemma_sum_of_take_step(vals, i as int);
            }
            total = total + all[i] as u128;
            i = i + 1;
        }
        proof {
            assert(vals.take(i as int) =~= vals);
            lemma_mean_bounds(total as int, i as int, 0, 0xffff);
        }
        (total / (i as u128)) as u16
    }
}

impl<const N: usize> MemoryCacher<u32, N> {
    /// The mean of the values held, rounded toward zero; `0` where the history is
    /// empty.
    #[must_use]
    pub fn average_u32(&self) -> (r: u32)
        ensures
            r as int == mean_of(self.slots().map_values(|x: u32| x as int)),
    {
        let all = self.get_all_copy();
        let ghost vals = all@.map_values(|x: u32| x as int);
        if all.len() == 0 {
            return 0;
        }
        let mut total: u128 = 0;
        let mut i: usize = 0;
        while i < all.len()
            invariant
                i <= all@.len(),
                vals == all@.map_values(|x: u32| x as int),
                total as int == sum_of(vals.take(i as int)),
                i * (0) <= total <= i * 0xffff_ffff,
            decreases all@.len() - i,
        {
            proof {
                lemma_sum_of_take_step(vals, i as int);
            }
            total = total + all[i] as u128;
            i = i + 1;
        }
        proof {
            assert(vals.take(i as int) =~= vals);
            lemma_mean_bounds(total as int, i as int, 0, 0xffff_ffff);
        }
        (total / (i as u128)) as u32
    }
}

impl<const N: usize> MemoryCacher<u64, N> {
    /// The mean of the values held, rounded toward zero; `0` where the history is
    /// empty.
    #[must_use]
    pub fn average_u64(&self) -> (r: u64)
        ensures
            r as int == mean_of(self.slots().map_values(|x: u64| x as int)),
    {
        let all = self.get_all_copy();
        let ghost vals = all@.map_values(|x: u64| x as int);
        if all.len() == 0 {
            return 0;
        }
        let mut total: u128 = 0;
        let mut i: usize = 0;
        while i < all.len()
            invariant
                i <= all@.len(),
                vals == all@.map_values(|x: u64| x as int),
                total as int == sum_of(vals.take(i as int)),
                i * (0) <= total <= i * 0xffff_ffff_ffff_ffff,
            decreases all@.len() - i,
        {
            proof {
                lemma_sum_of_take_step(vals, i as int);
            }
            total = total + all[i] as u128;
            i = i + 1;
        }
        proof {
            assert(vals.take(i as int) =~= vals);
            lemma_mean_bounds(total as int, i as int, 0, 0xffff_ffff_ffff_ffff);
        }
        (total / (i as u128)) as u64
    }
}

impl<const N: usize> MemoryCacher<u128, N> {
    /// The mean of the values held, rounded toward zero; `0` where the history is
    /// empty. The values are added up in `u128` itself, so every partial sum must
    /// fit in it.
    #[must_use]
    pub fn average_u128(&self) -> (r: u128)
        requires
            partial_sums_within(self.slots().map_values(|x: u128| x as int), u128::MIN as int, u128::MAX as int),
        ensures
            r as int == mean_of(self.slots().map_values(|x: u128| x as int)),
    {
        let all = self.get_all_copy();
        let ghost vals = all@.map_values(|x: u128| x as int);
        if all.len() == 0 {
            return 0;
        }
        let mut total: u128 = 0;
        let mut i: usize = 0;
        while i < all.len()
            invariant
                i <= all@.len(),
                vals == all@.map_values(|x: u128| x as int),
                partial_sums_within(vals, u128::MIN as int, u128::MAX as int),
                total as int == sum_of(vals.take(i as int)),
            decreases all@.len() - i,
        {
            proof {
                lemma_sum_of_take_step(vals, i as int);
                assert(u128::MIN <= sum_of(vals.take(i + 1)) <= u128::MAX);
            }
            total = total + all[i];
            i = i + 1;
        }
        proof {
            assert(vals.take(i as int) =~= vals);
            lemma_trunc_div_shrinks(total as int, i as int);
        }
        total / (i as u128)
    }
}

impl<const N: usize> MemoryCacher<i8, N> {
    /// The mean of the values held, rounded toward zero; `0` where the history is
    /// empty.
    #[must_use]
    pub fn average_i8(&self) -> (r: i8)
        ensures
            r as int == mean_of(self.slots().map_values(|x: i8| x as int)),
    {
        let all = self.get_all_copy();
        let ghost vals = all@.map_values(|x: i8| x as int);
        if all.len() == 0 {
            return 0;
        }
        let mut total: i128 = 0;
        let mut i: usize = 0;
        while i < all.len()
            invariant
                i <= all@.len(),
                vals == all@.map_values(|x: i8| x as int),
                total as int == sum_of(vals.take(i as int)),
                i * (-0x80) <= total <= i * 0x7f,
            decreases all@.len() - i,
        {
            proof {
                lemma_sum_of_take_step(vals, i as int);
            }
            total = total + all[i] as i128;
            i = i + 1;
        }
        proof {
            assert(vals.take(i as int) =~= vals);
            lemma_mean_bounds(total as int, i as int, -0x80, 0x7f);
        }
        (total / (i as i128)) as i8
    }
}

impl<const N: usize> MemoryCacher<i16, N> {
    /// The mean of the values held, rounded toward zero; `0` where the history is
    /// empty.
    #[must_use]
    pub fn average_i16(&self) -> (r: i16)
        ensures
            r as int == mean_of(self.slots().map_values(|x: i16| x as int)),
    {
        let all = self.get_all_copy();
        let ghost vals = all@.map_values(|x: i16| x as int);
        if all.len() == 0 {
            return 0;
        }
        let mut total: i128 = 0;
        let mut i: usize = 0;
        while i < all.len()
            invariant
                i <= all@.len(),
                vals == all@.map_values(|x: i16| x as int),
                total as int == sum_of(vals.take(i as int)),
                i * (-0x8000) <= total <= i * 0x7fff,
            decreases all@.len() - i,
        {
            proof {
                lemma_sum_of_take_step(vals, i as int);
            }
            total = total + all[i] as i128;
            i = i + 1;
        }
        proof {
            assert(vals.take(i as int) =~= vals);
            lemma_mean_bounds(total as int, i as int, -0x8000, 0x7fff);
        }
        (total / (i as i128)) as i16
    }
}

impl<const N: usize> MemoryCacher<i32, N> {
    /// The mean of the values held, rounded toward zero; `0` where the history is
    /// empty.
    #[must_use]
    pub fn average_i32(&self) -> (r: i32)
        ensures
            r as int == mean_of(self.slots().map_values(|x: i32| x as int)),
    {
        let all = self.get_all_copy();
        let ghost vals = all@.map_values(|x: i32| x as int);
        if all.len() == 0 {
            return 0;
        }
        let mut total: i128 = 0;
        let mut i: usize = 0;
        while i < all.len()
            invariant
                i <= all@.len(),
                vals == all@.map_values(|x: i32| x as int),
                total as int == sum_of(vals.take(i as int)),
                i * (-0x8000_0000) <= total <= i * 0x7fff_ffff,
            decreases all@.len() - i,
        {
            proof {
                lemma_sum_of_take_step(vals, i as int);
            }
            total = total + all[i] as i128;
            i = i + 1;
        }
        proof {
            assert(vals.take(i as int) =~= vals);
            lemma_mean_bounds(total as int, i as int, -0x8000_0000, 0x7fff_ffff);
        }
        (total / (i as i128)) as i32
    }
}

impl<const N: usize> MemoryCacher<i64, N> {
    /// The mean of the values held, rounded toward zero; `0` where the history is
    /// empty.
    #[must_use]
    pub fn average_i64(&self) -> (r: i64)
        ensures
            r as int == mean_of(self.slots().map_values(|x: i64| x as int)),
    {
        let all = self.get_all_copy();
        let ghost vals = all@.map_values(|x: i64| x as int);
        if all.len() == 0 {
            return 0;
        }
        let mut total: i128 = 0;
        let mut i: usize = 0;
        while i < all.len()
            invariant
                i <= all@.len(),
                vals == all@.map_values(|x: i64| x as int),
                total as int == sum_of(vals.take(i as int)),
                i * (-0x8000_0000_0000_0000) <= total <= i * 0x7fff_ffff_ffff_ffff,
            decreases all@.len() - i,
        {
            proof {
                lemma_sum_of_take_step(vals, i as int);
            }
            total = total + all[i] as i128;
            i = i + 1;
        }
        proof {
            assert(vals.take(i as int) =~= vals);
            lemma_mean_bounds(total as int, i as int, -0x8000_0000_0000_0000, 0x7fff_ffff_ffff_ffff);
        }
        (total / (i as i128)) as i64
    }
}

impl<const N: usize> MemoryCacher<i128, N> {
    /// The mean of the values held, rounded toward zero; `0` where the history is
    /// empty. The values are added up in `i128` itself, so every partial sum must
    /// fit in it.
    #[must_use]
    pub fn average_i128(&self) -> (r: i128)
        requires
            partial_sums_within(self.slots().map_values(|x: i128| x as int), i128::MIN as int, i128::MAX as int),
        ensures
            r as int == mean_of(self.slots().map_values(|x: i128| x as int)),
    {
        let all = self.get_all_copy();
        let ghost vals = all@.map_values(|x: i128| x as int);
        if all.len() == 0 {
            return 0;
        }
        let mut total: i128 = 0;
        let mut i: usize = 0;
        while i < all.len()
            invariant
                i <= all@.len(),
                vals == all@.map_values(|x: i128| x as int),
                partial_sums_within(vals, i128::MIN as int, i128::MAX as int),
                total as int == sum_of(vals.take(i as int)),
            decreases all@.len() - i,
        {
            proof {
                lemma_sum_of_take_step(vals, i as int);
                assert(i128::MIN <= sum_of(vals.take(i + 1)) <= i128::MAX);
            }
            total = total + all[i];
            i = i + 1;
        }
        proof {
            assert(vals.take(i as int) =~= vals);
            lemma_trunc_div_shrinks(total as int, i as int);
        }
        total / (i as i128)
    }
}

} // verus!
