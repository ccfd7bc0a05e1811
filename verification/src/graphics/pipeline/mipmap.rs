//! Mip levels: how many a texture has, and how large they are.
use vstd::arithmetic::div_mod::*;
use vstd::arithmetic::power2::*;
use vstd::bits::*;
use vstd::prelude::*;

use crate::graphics::types::TextureUsages;

verus! {

/// Which mip levels a texture has.
#[derive(Clone, Copy, PartialEq, Eq, Structural, Debug)]
pub enum MipLevels {
    /// Only the texture itself.
    Single,
    /// Every level down to a single pixel.
    Full,
    /// Exactly this many levels.
    Fixed(u32),
}

/// How many levels it takes to get down to a single pixel, halving every time.
pub open spec fn full_chain(size: nat) -> nat
    decreases size,
{
    if size <= 1 {
        1
    } else {
        1 + full_chain(size / 2)
    }
}

/// How many levels a texture has whose larger side is `size`.
pub open spec fn level_count(size: nat, levels: MipLevels) -> nat {
    match levels {
        MipLevels::Single => 1,
        MipLevels::Full => full_chain(size),
        MipLevels::Fixed(count) => count as nat,
    }
}

/// How large a side of `size` pixels is at a mip level: halved once per
/// level, and never less than one pixel.
pub open spec fn mip_size(size: nat, level: nat) -> nat {
    if size / pow2(level) < 1 {
        1
    } else {
        size / pow2(level)
    }
}

proof fn lemma_full_chain_bound(size: nat, bits: nat)
    requires
        size < pow2(bits),
        bits >= 1,
    ensures
        1 <= full_chain(size) <= bits,
    decreases bits,
{
    if size > 1 {
        lemma_pow2_unfold(bits);
        if bits == 1 {
            lemma_pow2_unfold(1);
            lemma2_to64();
        } else {
            lemma_full_chain_bound(size / 2, (bits - 1) as nat);
        }
    }
}

/// How many mip levels a texture has whose larger side is `size`.
pub fn mip_count(size: u32, levels: MipLevels) -> (count: u32)
    ensures
        count == level_count(size as nat, levels),
{
    match levels {
        MipLevels::Single => 1,
        MipLevels::Fixed(count) => count,
        MipLevels::Full => {
            let mut count: u32 = 1;
            let mut rest: u32 = size;
            proof {
                lemma2_to64();
                lemma_full_chain_bound(size as nat, 32);
            }
            while rest > 1
                invariant
                    count - 1 + full_chain(rest as nat) == full_chain(size as nat),
                    full_chain(size as nat) <= 32,
                    count >= 1,
                decreases rest,
            {
                rest = rest / 2;
                count += 1;
            }
            count
        },
    }
}

/// How large a side of `size` pixels is at a mip level.
pub fn mip_dimension(size: u32, level: u32) -> (dimension: u32)
    requires
        level < 32,
    ensures
        dimension == mip_size(size as nat, level as nat),
{
    proof {
        lemma_u32_shr_is_div(size, level);
    }
    let halved: u32 = size >> level;
    if halved < 1 {
        1
    } else {
        halved
    }
}

/// The usage that a texture needs by default: to be bound and written, and to
/// be rendered into if its mip levels are generated or if nothing is uploaded
/// into it.
pub open spec fn default_usage(mip_count: u32, has_data: bool) -> TextureUsages {
    TextureUsages {
        texture_binding: true,
        copy_dst: true,
        render_attachment: mip_count > 1 || !has_data,
        ..TextureUsages::none()
    }
}

/// The usage that a texture needs by default.
pub fn texture_usage_for(mip_count: u32, has_data: bool) -> (usage: TextureUsages)
    ensures
        usage == default_usage(mip_count, has_data),
{
    let usage = TextureUsages::texture_binding() | TextureUsages::copy_dst();
    if mip_count > 1 || !has_data {
        usage | TextureUsages::render_attachment()
    } else {
        usage
    }
}

/// A full chain ends with a single pixel, and only its last level is that
/// small.
pub proof fn law_a_full_chain_ends_with_a_single_pixel(size: nat, level: nat)
    requires
        size >= 1,
        level < full_chain(size),
    ensures
        mip_size(size, level) == 1 <==> level == full_chain(size) - 1,
    decreases size,
{
    lemma2_to64();
    if level == 0 {
        assert(size / pow2(0) == size);
        reveal_with_fuel(full_chain, 2);
    } else {
        let half = (size / 2) as nat;
        let before = (level - 1) as nat;
        law_a_full_chain_ends_with_a_single_pixel(half, before);
        lemma_pow2_unfold(level);
        lemma_pow2_pos(before);
        lemma_div_denominator(size as int, 2, pow2(before) as int);
    }
}

/// A side at the first level is the side of the texture, or one pixel, and
/// each level halves it, down to one pixel.
pub proof fn law_each_level_halves(size: nat, level: nat)
    ensures
        mip_size(size, 0) == if size >= 1 {
            size
        } else {
            1
        },
        mip_size(size, level + 1) == if mip_size(size, level) >= 2 {
            mip_size(size, level) / 2
        } else {
            1
        },
{
    lemma2_to64();
    assert(size / pow2(0) == size);
    lemma_pow2_unfold(level + 1);
    lemma_pow2_pos(level);
    assert(pow2(level + 1) == pow2(level) * 2);
    lemma_div_denominator(size as int, pow2(level) as int, 2);
}

/// A larger side is larger, or as large, at each level.
pub proof fn law_levels_keep_the_larger_side(small: nat, large: nat, level: nat)
    requires
        small <= large,
    ensures
        mip_size(small, level) <= mip_size(large, level),
{
    lemma_pow2_pos(level);
    lemma_div_is_ordered(small as int, large as int, pow2(level) as int);
}

/// A full chain has as many levels as the side has binary digits.
pub proof fn law_a_full_chain_counts_the_binary_digits(size: nat)
    requires
        size >= 1,
    ensures
        full_chain(size) >= 1,
        pow2((full_chain(size) - 1) as nat) <= size < pow2(full_chain(size)),
    decreases size,
{
    lemma2_to64();
    if size > 1 {
        law_a_full_chain_counts_the_binary_digits(size / 2);
        lemma_pow2_unfold(full_chain(size));
        lemma_pow2_unfold((full_chain(size) - 1) as nat);
    }
}

/// One level if no others were asked for, the count that was asked for, or
/// every level down to a single pixel; a side of nothing has one level.
pub proof fn law_the_levels_are_what_was_asked_for(size: nat, count: u32)
    ensures
        level_count(size, MipLevels::Single) == 1,
        level_count(size, MipLevels::Fixed(count)) == count,
        level_count(0, MipLevels::Full) == 1,
        level_count(size, MipLevels::Full) >= 1,
        mip_size(size, (level_count(size, MipLevels::Full) - 1) as nat) == 1,
        level_count(size, MipLevels::Full) > 1 ==> mip_size(
            size,
            (level_count(size, MipLevels::Full) - 2) as nat,
        ) > 1,
{
    reveal_with_fuel(full_chain, 2);
    law_each_level_halves(size, 0);
    if size >= 1 {
        let last = (full_chain(size) - 1) as nat;
        law_a_full_chain_ends_with_a_single_pixel(size, last);
        if last > 0 {
            law_a_full_chain_ends_with_a_single_pixel(size, (last - 1) as nat);
            lemma_pow2_pos((last - 1) as nat);
        }
    }
}

/// By default a texture can be bound and written and nothing else, but that
/// it can be rendered into where its levels are generated or nothing is
/// uploaded.
pub proof fn law_the_default_usage(mip_count: u32, has_data: bool)
    ensures
        default_usage(mip_count, has_data).texture_binding,
        default_usage(mip_count, has_data).copy_dst,
        !default_usage(mip_count, has_data).copy_src,
        !default_usage(mip_count, has_data).storage_binding,
        default_usage(mip_count, has_data).render_attachment <==> (mip_count > 1 || !has_data),
{
}

/// The number of levels is one, or what was asked for, or as many as it takes
/// to get down to a single pixel: at the last level the side is one pixel
/// long, at the one before it is longer.
pub proof fn law_counting_levels(size: u32, levels: MipLevels, count: u32, fixed: u32)
    requires
        call_ensures(mip_count, (size, levels), count),
    ensures
        levels == MipLevels::Single ==> count == 1,
        levels == MipLevels::Fixed(fixed) ==> count == fixed,
        levels == MipLevels::Full ==> {
            &&& 1 <= count <= 32
            &&& mip_size(size as nat, (count - 1) as nat) == 1
            &&& count > 1 ==> mip_size(size as nat, (count - 2) as nat) > 1
            &&& size >= 1 ==> pow2((count - 1) as nat) <= size < pow2(count as nat)
        },
{
    law_the_levels_are_what_was_asked_for(size as nat, fixed);
    lemma2_to64();
    lemma_full_chain_bound(size as nat, 32);
    if size >= 1 {
        law_a_full_chain_counts_the_binary_digits(size as nat);
    }
}

/// A side is halved once per level, down to one pixel.
pub proof fn law_halving_a_side(size: u32, level: u32, dimension: u32, next: u32)
    requires
        call_ensures(mip_dimension, (size, level), dimension),
        level < 31,
        call_ensures(mip_dimension, (size, (level + 1) as u32), next),
    ensures
        dimension >= 1,
        level == 0 && size >= 1 ==> dimension == size,
        next == if dimension >= 2 {
            dimension / 2
        } else {
            1
        },
{
    law_each_level_halves(size as nat, level as nat);
}

/// A texture can be bound and written, and rendered into where it has levels
/// to generate or nothing to upload; nothing else.
pub proof fn law_the_usage_that_a_texture_gets(mip_count: u32, has_data: bool, usage: TextureUsages)
    requires
        call_ensures(texture_usage_for, (mip_count, has_data), usage),
    ensures
        usage.texture_binding,
        usage.copy_dst,
        usage.render_attachment <==> (mip_count > 1 || !has_data),
        !usage.copy_src,
        !usage.storage_binding,
{
}

} // verus!
