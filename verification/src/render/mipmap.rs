use vstd::prelude::*;

verus! {

/// The largest entry of `s`, or 0 when `s` is empty.
pub open spec fn seq_max(s: Seq<u32>) -> u32
    decreases s.len(),
{
    if s.len() == 0 {
        0
    } else {
        let rest = seq_max(s.drop_last());
        if s.last() > rest { s.last() } else { rest }
    }
}

/// The smallest largest-extent `n` for which `(n as f32).log2() as u32` is at
/// least `j` (for `1 <= j <= 32`), with `n as f32` rounded to the nearest `f32`
/// (ties to even) and `log2` correctly rounded to `f32`. Up to `2^20` this is
/// `2^j`; above, `log2` of an integer just below `2^j` is within half an `f32`
/// step of `j` and rounds up to it, so the step comes a little earlier.
pub open spec fn mip_threshold(j: nat) -> nat {
    if j <= 20 {
        vstd::arithmetic::power2::pow2(j)
    } else if j == 21 {
        2097151
    } else if j == 22 {
        4194302
    } else if j == 23 {
        8388603
    } else if j == 24 {
        16777205
    } else if j == 25 {
        33554410
    } else if j == 26 {
        67108819
    } else if j == 27 {
        134217637
    } else if j == 28 {
        268435273
    } else if j == 29 {
        536870545
    } else if j == 30 {
        1073741089
    } else if j == 31 {
        2147482177
    } else {
        4294964353
    }
}

/// How many of the thresholds `1..=j` the extent `n` reaches.
pub open spec fn thresholds_reached(n: nat, j: nat) -> nat
    decreases j,
{
    if j == 0 {
        0
    } else {
        thresholds_reached(n, (j - 1) as nat) + if n >= mip_threshold(j) { 1nat } else { 0nat }
    }
}

/// Number of mip levels of a texture whose extent along each axis is given by
/// `tex_size`: `1 + (max as f32).log2() as u32` over the largest extent `max`
/// (1 when there is no extent; `log2(0)` is negative infinity, which the
/// conversion to `u32` turns into 0). It goes up by one at each threshold.
pub open spec fn spec_mip_level_count(tex_size: Seq<u32>) -> nat {
    1 + thresholds_reached(seq_max(tex_size) as nat, 32)
}

fn threshold(j: u32) -> (t: u64)
    requires
        1 <= j <= 32,
    ensures
        t == mip_threshold(j as nat),
{
    proof {
        vstd::arithmetic::power2::lemma2_to64();
    }
    if j <= 20 {
        let mut t: u64 = 1;
        let mut i: u32 = 0;
        while i < j
            invariant
                i <= j <= 20,
                t == vstd::arithmetic::power2::pow2(i as nat),
            decreases j - i,
        {
            proof {
                vstd::arithmetic::power2::lemma_pow2_unfold((i + 1) as nat);
                vstd::arithmetic::power2::lemma_pow2_strictly_increases(i as nat, 20);
                vstd::arithmetic::power2::lemma2_to64();
            }
            t = t * 2;
            i = i + 1;
        }
        t
    } else if j == 21 {
        2097151
    } else if j == 22 {
        4194302
    } else if j == 23 {
        8388603
    } else if j == 24 {
        16777205
    } else if j == 25 {
        33554410
    } else if j == 26 {
        67108819
    } else if j == 27 {
        134217637
    } else if j == 28 {
        268435273
    } else if j == 29 {
        536870545
    } else if j == 30 {
        1073741089
    } else if j == 31 {
        2147482177
    } else {
        4294964353
    }
}

/// Number of mip levels for a texture of the given size:
/// `1 + (max as f32).log2() as u32` over the axis extents, and 1 when there is none.
pub fn calculate_mip_level_count<const N: usize>(tex_size: &[u32; N]) -> (count: u32)
    ensures
        count == spec_mip_level_count(tex_size@),
{
    let mut max: u32 = 0;
    let mut i: usize = 0;
    while i < N
        invariant
            i <= N,
            tex_size@.len() == N,
            max == seq_max(tex_size@.take(i as int)),
        decreases N - i,
    {
        assert(tex_size@.take(i as int + 1).drop_last() =~= tex_size@.take(i as int));
        if tex_size[i] > max {
            max = tex_size[i];
        }
        i = i + 1;
    }
    assert(tex_size@.take(N as int) =~= tex_size@);
    let mut reached: u32 = 0;
    let mut j: u32 = 1;
    while j <= 32
        invariant
            1 <= j <= 33,
            reached == thresholds_reached(max as nat, (j - 1) as nat),
            reached < j,
        decreases 33 - j,
    {
        if max as u64 >= threshold(j) {
            reached = reached + 1;
        }
        j = j + 1;
    }
    1 + reached
}

proof fn lemma_seq_max_is(s: Seq<u32>, m: u32)
    requires
        forall|i: int| 0 <= i < s.len() ==> s[i] <= m,
        exists|i: int| 0 <= i < s.len() && s[i] == m,
    ensures
        seq_max(s) == m,
    decreases s.len(),
{
    let init = s.drop_last();
    if s.last() == m {
        if init.len() > 0 {
            lemma_seq_max_below(init, m);
        }
    } else {
        let i = choose|i: int| 0 <= i < s.len() && s[i] == m;
        assert(init[i] == m);
        lemma_seq_max_is(init, m);
    }
}

proof fn lemma_seq_max_below(s: Seq<u32>, m: u32)
    requires
        forall|i: int| 0 <= i < s.len() ==> s[i] <= m,
    ensures
        seq_max(s) <= m,
    decreases s.len(),
{
    if s.len() > 0 {
        lemma_seq_max_below(s.drop_last(), m);
    }
}

proof fn lemma_reached_low(m: nat, j: nat)
    requires
        1 <= m,
        j <= 20,
    ensures
        vstd::arithmetic::power2::pow2(thresholds_reached(m, j)) <= m,
        thresholds_reached(m, j) <= j,
        thresholds_reached(m, j) < j ==> m < vstd::arithmetic::power2::pow2(thresholds_reached(m, j) + 1),
    decreases j,
{
    vstd::arithmetic::power2::lemma2_to64();
    if j > 0 {
        lemma_reached_low(m, (j - 1) as nat);
        let c = thresholds_reached(m, (j - 1) as nat);
        if c + 1 < j {
            vstd::arithmetic::power2::lemma_pow2_strictly_increases(c + 1, j);
        }
    }
}

proof fn lemma_reached_high(m: nat, j: nat)
    requires
        m <= 0x10_0000,
        20 <= j <= 32,
    ensures
        thresholds_reached(m, j) == thresholds_reached(m, 20),
    decreases j,
{
    if j > 20 {
        lemma_reached_high(m, (j - 1) as nat);
    }
}

/// The mip level count depends on the largest extent alone, whatever the
/// order of the extents or the other extents: it is the count of a texture
/// whose only extent is that largest one. For a largest extent `m` from 1 to
/// `2^20` it is the `c` with `2^(c - 1) <= m < 2^c`: one level per halving of
/// `m` down to a single texel, plus the full image.
pub proof fn lemma_mip_levels_follow_largest_extent(tex_size: Seq<u32>, m: u32)
    requires
        forall|i: int| 0 <= i < tex_size.len() ==> tex_size[i] <= m,
        exists|i: int| 0 <= i < tex_size.len() && tex_size[i] == m,
    ensures
        spec_mip_level_count(tex_size) == spec_mip_level_count(seq![m]),
        1 <= m <= 0x10_0000 ==> {
            let c = spec_mip_level_count(tex_size);
            &&& vstd::arithmetic::power2::pow2((c - 1) as nat) <= m
            &&& m < vstd::arithmetic::power2::pow2(c)
        },
{
    lemma_seq_max_is(tex_size, m);
    let single = seq![m];
    assert(single[0] == m);
    lemma_seq_max_is(single, m);
    if 1 <= m <= 0x10_0000 {
        vstd::arithmetic::power2::lemma2_to64();
        lemma_reached_low(m as nat, 20);
        lemma_reached_high(m as nat, 32);
    }
}

/// Without any extent, or with every extent 0, a texture has its single full level.
pub proof fn lemma_mip_levels_of_empty(tex_size: Seq<u32>)
    requires
        forall|i: int| 0 <= i < tex_size.len() ==> tex_size[i] == 0,
    ensures
        spec_mip_level_count(tex_size) == 1,
{
    lemma_seq_max_below(tex_size, 0);
    lemma_reached_zero(32);
}

proof fn lemma_reached_zero(j: nat)
    ensures
        thresholds_reached(0, j) == 0,
    decreases j,
{
    vstd::arithmetic::power2::lemma2_to64();
    if j > 0 {
        lemma_reached_zero((j - 1) as nat);
        if j <= 20 {
            vstd::arithmetic::power2::lemma_pow2_pos(j);
        }
    }
}

} // verus!
