//! Mipmap chains: how many levels a texture gets, and the blits that fill each level
//! from the one above it.

use vstd::prelude::*;

verus! {

/// The floor of the base-2 logarithm of `n` (0 for `n <= 1`).
pub open spec fn log2_floor(n: nat) -> nat
    decreases n,
{
    if n <= 1 {
        0
    } else {
        1 + log2_floor(n / 2)
    }
}

/// The larger of two extents.
pub open spec fn max_extent(w: nat, h: nat) -> nat {
    if w >= h {
        w
    } else {
        h
    }
}

/// Number of mip levels of a `w` by `h` texture: one per halving of the larger side
/// down to 1, plus the full-size level.
pub open spec fn mip_levels_for(w: nat, h: nat) -> nat {
    log2_floor(max_extent(w, h)) + 1
}

/// One mip level's extent from the previous one: halved, but never below 1.
pub open spec fn halve(n: nat) -> nat {
    if n > 1 {
        n / 2
    } else {
        1
    }
}

/// The extent of mip level `level` of a side of `n` texels.
pub open spec fn mip_extent(n: nat, level: nat) -> nat
    decreases level,
{
    if level == 0 {
        n
    } else {
        halve(mip_extent(n, (level - 1) as nat))
    }
}

/// Number of mip levels of a `width` by `height` texture: `floor(log2(max(width,
/// height))) + 1`, and 1 for an empty texture.
pub fn mip_level_count(width: u32, height: u32) -> (n: u32)
    ensures
        n == mip_levels_for(width as nat, height as nat),
{
    let mut m: u32 = if width >= height {
        width
    } else {
        height
    };
    let mut levels: u32 = 1;
    proof {
        lemma_log2_bound(m as nat);
    }
    while m > 1
        invariant
            levels + log2_floor(m as nat) == mip_levels_for(width as nat, height as nat),
            levels <= 33 - log2_floor(m as nat),
            log2_floor(m as nat) <= 32,
        decreases m,
    {
        m = m / 2;
        levels = levels + 1;
    }
    levels
}

/// `2` to the power `k`.
pub open spec fn two_pow(k: nat) -> nat
    decreases k,
{
    if k == 0 {
        1
    } else {
        2 * two_pow((k - 1) as nat)
    }
}

/// A value below `2^k` has a base-2 logarithm of at most `k`.
proof fn lemma_log2_below(n: nat, k: nat)
    requires
        n < two_pow(k),
    ensures
        log2_floor(n) <= k,
    decreases n,
{
    if n > 1 {
        assert(k >= 1);
        lemma_log2_below(n / 2, (k - 1) as nat);
    }
}

/// `log2_floor` of a 32-bit value is at most 32.
proof fn lemma_log2_bound(n: nat)
    requires
        n <= u32::MAX,
    ensures
        log2_floor(n) <= 32,
{
    reveal_with_fuel(two_pow, 33);
    assert(two_pow(32) == 0x1_0000_0000);
    lemma_log2_below(n, 32);
}

/// A blit that fills mip level `dst_level` from level `src_level`.
#[derive(Debug, Clone, Copy, PartialEq, Eq, Structural)]
pub struct MipBlit {
    /// Level read from
    pub src_level: u32,
    /// Level written to
    pub dst_level: u32,
    /// Width of the source level
    pub src_width: i32,
    /// Height of the source level
    pub src_height: i32,
    /// Width of the destination level
    pub dst_width: i32,
    /// Height of the destination level
    pub dst_height: i32,
}

/// The blit that fills level `k + 1` of a `w` by `h` texture from level `k`.
pub open spec fn mip_blit(w: nat, h: nat, k: nat) -> MipBlit {
    MipBlit {
        src_level: k as u32,
        dst_level: (k + 1) as u32,
        src_width: mip_extent(w, k) as i32,
        src_height: mip_extent(h, k) as i32,
        dst_width: mip_extent(w, k + 1) as i32,
        dst_height: mip_extent(h, k + 1) as i32,
    }
}

/// Mip extents of a side of `n` texels never exceed `max(n, 1)`.
proof fn lemma_mip_extent_bound(n: nat, k: nat)
    ensures
        1 <= mip_extent(n, k) || (k == 0 && n == 0),
        mip_extent(n, k) <= if n >= 1 { n } else { 1 },
    decreases k,
{
    if k > 0 {
        lemma_mip_extent_bound(n, (k - 1) as nat);
    }
}

/// The blits that generate levels `1 .. mip_levels` of a `width` by `height` texture,
/// each from the level above it, in order.
pub fn mip_blits(width: u32, height: u32, mip_levels: u32) -> (v: Vec<MipBlit>)
    requires
        1 <= mip_levels,
        width <= i32::MAX,
        height <= i32::MAX,
    ensures
        v@.len() == mip_levels - 1,
        forall|k: int| 0 <= k < v@.len() ==> #[trigger] v@[k] == mip_blit(width as nat, height as nat, k as nat),
{
    let mut v: Vec<MipBlit> = Vec::new();
    let mut mip_width: i32 = width as i32;
    let mut mip_height: i32 = height as i32;
    let mut i: u32 = 1;
    while i < mip_levels
        invariant
            1 <= i <= mip_levels,
            width <= i32::MAX,
            height <= i32::MAX,
            v@.len() == i - 1,
            mip_width as int == mip_extent(width as nat, (i - 1) as nat),
            mip_height as int == mip_extent(height as nat, (i - 1) as nat),
            forall|k: int| 0 <= k < v@.len() ==> #[trigger] v@[k] == mip_blit(width as nat, height as nat, k as nat),
        decreases mip_levels - i,
    {
        proof {
            lemma_mip_extent_bound(width as nat, (i - 1) as nat);
            lemma_mip_extent_bound(height as nat, (i - 1) as nat);
        }
        let next_mip_width: i32 = if mip_width > 1 { mip_width / 2 } else { 1 };
        let next_mip_height: i32 = if mip_height > 1 { mip_height / 2 } else { 1 };
        let blit = MipBlit {
            src_level: i - 1,
            dst_level: i,
            src_width: mip_width,
            src_height: mip_height,
            dst_width: next_mip_width,
            dst_height: next_mip_height,
        };
        proof {
            assert(mip_extent(width as nat, i as nat) == halve(mip_extent(width as nat, (i - 1) as nat)));
            assert(mip_extent(height as nat, i as nat) == halve(mip_extent(height as nat, (i - 1) as nat)));
            assert(blit == mip_blit(width as nat, height as nat, (i - 1) as nat));
        }
        v.push(blit);
        mip_width = next_mip_width;
        mip_height = next_mip_height;
        i = i + 1;
    }
    v
}

/// Level `k + 1` of a side is level `k` of the halved side.
proof fn lemma_mip_shift(n: nat, k: nat)
    ensures
        mip_extent(n, k + 1) == mip_extent(halve(n), k),
    decreases k,
{
    if k > 0 {
        lemma_mip_shift(n, (k - 1) as nat);
        assert(mip_extent(n, k + 1) == halve(mip_extent(n, k)));
        assert(mip_extent(halve(n), k) == halve(mip_extent(halve(n), (k - 1) as nat)));
    } else {
        assert(mip_extent(n, 1) == halve(mip_extent(n, 0)));
    }
}

/// A side of `n >= 1` texels is 1 texel at level `log2_floor(n)`.
proof fn lemma_mip_to_one(n: nat)
    requires
        n >= 1,
    ensures
        mip_extent(n, log2_floor(n)) == 1,
    decreases n,
{
    if n > 1 {
        lemma_mip_to_one(n / 2);
        lemma_mip_shift(n, log2_floor(n / 2));
    }
}

/// Mip extents grow with the side.
proof fn lemma_mip_monotone(a: nat, b: nat, k: nat)
    requires
        a <= b,
    ensures
        mip_extent(a, k) <= mip_extent(b, k),
    decreases k,
{
    if k > 0 {
        lemma_mip_monotone(a, b, (k - 1) as nat);
    }
}

/// A full mip chain ends at a single texel: for a texture of at least one texel per
/// side, the last of its `mip_levels_for(width, height)` levels is 1 by 1.
pub proof fn law_mip_chain_ends_at_one_texel(width: nat, height: nat)
    requires
        width >= 1,
        height >= 1,
    ensures
        mip_extent(width, (mip_levels_for(width, height) - 1) as nat) == 1,
        mip_extent(height, (mip_levels_for(width, height) - 1) as nat) == 1,
{
    let m = max_extent(width, height);
    let k = log2_floor(m);
    lemma_mip_to_one(m);
    lemma_mip_monotone(width, m, k);
    lemma_mip_monotone(height, m, k);
    lemma_mip_extent_bound(width, k);
    lemma_mip_extent_bound(height, k);
}

} // verus!
