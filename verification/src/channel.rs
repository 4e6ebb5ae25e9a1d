//! Colour channels and channel pairs.
//!
//! A channel packs, in 32 bits, a 24-bit RGB value (red in bits 16..24,
//! green in 8..16, blue in 0..8), a 2-bit alpha mode in bits 28..30 and a
//! flag in bit 30 that is set when the channel carries an explicit colour
//! rather than the terminal's default. A channel pair combines a foreground
//! channel (high 32 bits) and a background channel (low 32 bits); bit 31 of
//! the foreground channel (bit 63 of the pair) marks the continuation column
//! of a wide glyph.
//!
//! The module also holds the linear and bilinear channel interpolation that
//! line and gradient drawing use.

use vstd::prelude::*;
use vstd::arithmetic::div_mod::{
    lemma_div_is_ordered, lemma_div_multiples_vanish, lemma_div_pos_is_pos,
};

verus! {

/// A 32-bit colour channel: 24-bit RGB, 2-bit alpha mode, default flag.
pub type NcChannel = u32;

/// A foreground/background pair of channels in 64 bits.
pub type NcChannelPair = u64;

/// A 2-bit alpha mode, shifted to the least significant bits.
pub type NcAlphaBits = u32;

/// Mask of the bit that marks a channel as carrying an explicit colour.
pub const CHANNEL_NOT_DEFAULT_MASK: u32 = 0x4000_0000;

/// Mask of the pair bit that marks the continuation column of a wide glyph.
pub const CHANNELS_WIDE_MASK: u64 = 0x8000_0000_0000_0000;

/// The red component of a channel.
pub open spec fn channel_r(channel: u32) -> u8 {
    ((channel & 0x00ff_0000) >> 16) as u8
}

/// The green component of a channel.
pub open spec fn channel_g(channel: u32) -> u8 {
    ((channel & 0x0000_ff00) >> 8) as u8
}

/// The blue component of a channel.
pub open spec fn channel_b(channel: u32) -> u8 {
    (channel & 0x0000_00ff) as u8
}

/// The 24-bit RGB value of a channel, shifted to the least significant bits.
pub open spec fn channel_rgb(channel: u32) -> u32 {
    channel & 0x00ff_ffff
}

/// The 2-bit alpha mode of a channel, shifted to the least significant bits.
pub open spec fn channel_alpha(channel: u32) -> u32 {
    (channel >> 28) & 0x3
}

/// Whether a channel uses the terminal's default colour.
pub open spec fn channel_default_p(channel: u32) -> bool {
    channel & 0x4000_0000 == 0
}

/// The foreground channel of a pair.
pub open spec fn fchannel(channels: u64) -> u32 {
    (channels >> 32) as u32
}

/// The background channel of a pair.
pub open spec fn bchannel(channels: u64) -> u32 {
    (channels & 0xffff_ffff) as u32
}

/// The pair made of the given foreground and background channels.
pub open spec fn combine_channels(fg: u32, bg: u32) -> u64 {
    ((fg as u64) << 32) | (bg as u64)
}

/// `base` with its RGB bytes replaced by the given components; the alpha
/// mode, the default flag and bit 31 keep their values.
pub open spec fn compose_channel(base: u32, r: u8, g: u8, b: u8) -> u32 {
    (base & 0xff00_0000) | ((r as u32) << 16) | ((g as u32) << 8) | (b as u32)
}

/// Extracts the foreground channel from a pair.
pub fn channels_fchannel(channels: NcChannelPair) -> (fg: NcChannel)
    ensures
        fg == fchannel(channels),
{
    (channels >> 32) as u32
}

/// Extracts the background channel from a pair.
pub fn channels_bchannel(channels: NcChannelPair) -> (bg: NcChannel)
    ensures
        bg == bchannel(channels),
{
    (channels & 0xffff_ffff) as u32
}

/// The 24-bit RGB value of a pair's foreground channel.
pub fn channels_fg_rgb(channels: NcChannelPair) -> (rgb: u32)
    ensures
        rgb == channel_rgb(fchannel(channels)),
{
    channels_fchannel(channels) & 0x00ff_ffff
}

/// The 24-bit RGB value of a pair's background channel.
pub fn channels_bg_rgb(channels: NcChannelPair) -> (rgb: u32)
    ensures
        rgb == channel_rgb(bchannel(channels)),
{
    channels_bchannel(channels) & 0x00ff_ffff
}

/// The alpha mode of a pair's foreground channel, shifted to the least
/// significant bits.
pub fn channels_fg_alpha(channels: NcChannelPair) -> (alpha: NcAlphaBits)
    ensures
        alpha == channel_alpha(fchannel(channels)),
{
    (channels_fchannel(channels) >> 28) & 0x3
}

/// The alpha mode of a pair's background channel, shifted to the least
/// significant bits.
pub fn channels_bg_alpha(channels: NcChannelPair) -> (alpha: NcAlphaBits)
    ensures
        alpha == channel_alpha(bchannel(channels)),
{
    (channels_bchannel(channels) >> 28) & 0x3
}

/// Whether a pair's foreground channel uses the default colour.
pub fn channels_fg_default_p(channels: NcChannelPair) -> (default: bool)
    ensures
        default == channel_default_p(fchannel(channels)),
{
    channels_fchannel(channels) & 0x4000_0000 == 0
}

/// Whether a pair's background channel uses the default colour.
pub fn channels_bg_default_p(channels: NcChannelPair) -> (default: bool)
    ensures
        default == channel_default_p(bchannel(channels)),
{
    channels_bchannel(channels) & 0x4000_0000 == 0
}

/// Writes the RGB components of a pair's foreground channel into `red`,
/// `green` and `blue`, and returns that channel.
pub fn channels_fg_rgb8(channels: NcChannelPair, red: &mut u8, green: &mut u8, blue: &mut u8)
    -> (fg: NcChannel)
    ensures
        fg == fchannel(channels),
        *final(red) == channel_r(fchannel(channels)),
        *final(green) == channel_g(fchannel(channels)),
        *final(blue) == channel_b(fchannel(channels)),
{
    let fg = channels_fchannel(channels);
    *red = ((fg & 0x00ff_0000) >> 16) as u8;
    *green = ((fg & 0x0000_ff00) >> 8) as u8;
    *blue = (fg & 0x0000_00ff) as u8;
    fg
}

/// Writes the RGB components of a pair's background channel into `red`,
/// `green` and `blue`, and returns that channel.
pub fn channels_bg_rgb8(channels: NcChannelPair, red: &mut u8, green: &mut u8, blue: &mut u8)
    -> (bg: NcChannel)
    ensures
        bg == bchannel(channels),
        *final(red) == channel_r(bchannel(channels)),
        *final(green) == channel_g(bchannel(channels)),
        *final(blue) == channel_b(bchannel(channels)),
{
    let bg = channels_bchannel(channels);
    *red = ((bg & 0x00ff_0000) >> 16) as u8;
    *green = ((bg & 0x0000_ff00) >> 8) as u8;
    *blue = (bg & 0x0000_00ff) as u8;
    bg
}

/// Linear interpolation between components `a` (at step 0) and `b` (at step
/// `n - 1`) over a run of `n` steps, with integer division; `a` when the run
/// has a single step.
pub open spec fn lerp(a: int, b: int, i: int, n: int) -> int {
    if n <= 1 {
        a
    } else {
        (a * (n - 1 - i) + b * i) / (n - 1)
    }
}

/// Law: interpolation between 8-bit components stays within 8 bits, starts
/// at the first component and ends at the second.
pub proof fn lemma_lerp_bounds(a: int, b: int, i: int, n: int)
    requires
        0 <= a <= 255,
        0 <= b <= 255,
        0 <= i < n,
    ensures
        0 <= lerp(a, b, i, n) <= 255,
        i == 0 ==> lerp(a, b, i, n) == a,
        n >= 2 && i == n - 1 ==> lerp(a, b, i, n) == b,
{
    if n <= 1 {
    } else {
        let num = a * (n - 1 - i) + b * i;
        assert(num <= 255 * (n - 1) && num >= 0) by (nonlinear_arith)
            requires
                0 <= a <= 255,
                0 <= b <= 255,
                0 <= i < n,
                num == a * (n - 1 - i) + b * i,
        ;
        lemma_div_pos_is_pos(num, n - 1);
        lemma_div_is_ordered(num, 255 * (n - 1), n - 1);
        lemma_div_multiples_vanish(255, n - 1);
        if i == 0 {
            assert(num == a * (n - 1)) by (nonlinear_arith)
                requires
                    i == 0,
                    num == a * (n - 1 - i) + b * i,
            ;
            lemma_div_multiples_vanish(a, n - 1);
        }
        if i == n - 1 {
            assert(num == b * (n - 1)) by (nonlinear_arith)
                requires
                    i == n - 1,
                    num == a * (n - 1 - i) + b * i,
            ;
            lemma_div_multiples_vanish(b, n - 1);
        }
    }
}

/// Law: interpolating between a component and itself yields that component
/// at every step.
pub proof fn lemma_lerp_const(a: int, i: int, n: int)
    requires
        0 <= a,
        0 <= i < n,
    ensures
        lerp(a, a, i, n) == a,
{
    if n > 1 {
        assert(a * (n - 1 - i) + a * i == (n - 1) * a) by (nonlinear_arith);
        lemma_div_multiples_vanish(a, n - 1);
    }
}

/// Law: a gradient whose four corners share one channel pair leaves that
/// pair unchanged at every position.
pub proof fn lemma_grad_channels_const(c: u64, dy: int, dx: int, ylen: int, xlen: int)
    requires
        0 <= dy < ylen,
        0 <= dx < xlen,
    ensures
        grad_channels(c, c, c, c, dy, dx, ylen, xlen) == c,
{
    let f = fchannel(c);
    let b = bchannel(c);
    lemma_lerp_const(channel_r(f) as int, dy, ylen);
    lemma_lerp_const(channel_g(f) as int, dy, ylen);
    lemma_lerp_const(channel_b(f) as int, dy, ylen);
    lemma_lerp_const(channel_r(f) as int, dx, xlen);
    lemma_lerp_const(channel_g(f) as int, dx, xlen);
    lemma_lerp_const(channel_b(f) as int, dx, xlen);
    lemma_lerp_const(channel_r(b) as int, dy, ylen);
    lemma_lerp_const(channel_g(b) as int, dy, ylen);
    lemma_lerp_const(channel_b(b) as int, dy, ylen);
    lemma_lerp_const(channel_r(b) as int, dx, xlen);
    lemma_lerp_const(channel_g(b) as int, dx, xlen);
    lemma_lerp_const(channel_b(b) as int, dx, xlen);
    assert(compose_channel(f, channel_r(f), channel_g(f), channel_b(f)) == f) by (bit_vector);
    assert(compose_channel(b, channel_r(b), channel_g(b), channel_b(b)) == b) by (bit_vector);
    assert(combine_channels(fchannel(c), bchannel(c)) == c) by (bit_vector);
}

/// Linear interpolation of 8-bit components over a run of `n` steps.
pub fn lerp_u8(a: u8, b: u8, i: usize, n: usize) -> (r: u8)
    requires
        i < n,
        n <= 0x7fff_ffff,
    ensures
        r as int == lerp(a as int, b as int, i as int, n as int),
{
    proof {
        lemma_lerp_bounds(a as int, b as int, i as int, n as int);
    }
    if n <= 1 {
        a
    } else {
        let d: usize = n - 1 - i;
        proof {
            assert((a as int) * (d as int) <= 255 * (d as int) && (b as int) * (i as int) <= 255
                * (i as int)) by (nonlinear_arith)
                requires
                    a as int <= 255,
                    b as int <= 255,
                    0 <= d as int,
                    0 <= i as int,
            ;
        }
        let num: u64 = (a as u64) * (d as u64) + (b as u64) * (i as u64);
        (num / ((n - 1) as u64)) as u8
    }
}

/// The component that a bilinear interpolation of the four corner components
/// of a `ylen` by `xlen` rectangle yields at position (`dy`, `dx`): each
/// column edge is interpolated vertically, then the row is interpolated
/// horizontally between the two results.
pub open spec fn grad_component(
    ul: int,
    ur: int,
    ll: int,
    lr: int,
    dy: int,
    dx: int,
    ylen: int,
    xlen: int,
) -> int {
    lerp(lerp(ul, ll, dy, ylen), lerp(ur, lr, dy, ylen), dx, xlen)
}

/// The channel that bilinear interpolation of four corner channels yields at
/// position (`dy`, `dx`) of a `ylen` by `xlen` rectangle. The RGB components
/// are interpolated; the high byte (alpha mode, default flag, bit 31) is
/// taken from the upper-left corner.
pub open spec fn grad_channel(
    ul: u32,
    ur: u32,
    ll: u32,
    lr: u32,
    dy: int,
    dx: int,
    ylen: int,
    xlen: int,
) -> u32 {
    compose_channel(
        ul,
        grad_component(
            channel_r(ul) as int,
            channel_r(ur) as int,
            channel_r(ll) as int,
            channel_r(lr) as int,
            dy,
            dx,
            ylen,
            xlen,
        ) as u8,
        grad_component(
            channel_g(ul) as int,
            channel_g(ur) as int,
            channel_g(ll) as int,
            channel_g(lr) as int,
            dy,
            dx,
            ylen,
            xlen,
        ) as u8,
        grad_component(
            channel_b(ul) as int,
            channel_b(ur) as int,
            channel_b(ll) as int,
            channel_b(lr) as int,
            dy,
            dx,
            ylen,
            xlen,
        ) as u8,
    )
}

/// The channel pair that bilinear interpolation of four corner pairs yields
/// at position (`dy`, `dx`) of a `ylen` by `xlen` rectangle: the foreground
/// and background channels are interpolated independently.
pub open spec fn grad_channels(
    ul: u64,
    ur: u64,
    ll: u64,
    lr: u64,
    dy: int,
    dx: int,
    ylen: int,
    xlen: int,
) -> u64 {
    combine_channels(
        grad_channel(fchannel(ul), fchannel(ur), fchannel(ll), fchannel(lr), dy, dx, ylen, xlen),
        grad_channel(bchannel(ul), bchannel(ur), bchannel(ll), bchannel(lr), dy, dx, ylen, xlen),
    )
}

/// Bilinear interpolation of one 32-bit channel.
fn gradient_channel(ul: u32, ur: u32, ll: u32, lr: u32, dy: usize, dx: usize, ylen: usize, xlen: usize)
    -> (channel: u32)
    requires
        dy < ylen,
        dx < xlen,
        ylen <= 0x7fff_ffff,
        xlen <= 0x7fff_ffff,
    ensures
        channel == grad_channel(ul, ur, ll, lr, dy as int, dx as int, ylen as int, xlen as int),
{
    let ul_r = ((ul & 0x00ff_0000) >> 16) as u8;
    let ul_g = ((ul & 0x0000_ff00) >> 8) as u8;
    let ul_b = (ul & 0x0000_00ff) as u8;
    let ur_r = ((ur & 0x00ff_0000) >> 16) as u8;
    let ur_g = ((ur & 0x0000_ff00) >> 8) as u8;
    let ur_b = (ur & 0x0000_00ff) as u8;
    let ll_r = ((ll & 0x00ff_0000) >> 16) as u8;
    let ll_g = ((ll & 0x0000_ff00) >> 8) as u8;
    let ll_b = (ll & 0x0000_00ff) as u8;
    let lr_r = ((lr & 0x00ff_0000) >> 16) as u8;
    let lr_g = ((lr & 0x0000_ff00) >> 8) as u8;
    let lr_b = (lr & 0x0000_00ff) as u8;
    proof {
        lemma_lerp_bounds(ul_r as int, ll_r as int, dy as int, ylen as int);
        lemma_lerp_bounds(ul_g as int, ll_g as int, dy as int, ylen as int);
        lemma_lerp_bounds(ul_b as int, ll_b as int, dy as int, ylen as int);
        lemma_lerp_bounds(ur_r as int, lr_r as int, dy as int, ylen as int);
        lemma_lerp_bounds(ur_g as int, lr_g as int, dy as int, ylen as int);
        lemma_lerp_bounds(ur_b as int, lr_b as int, dy as int, ylen as int);
    }
    let left_r = lerp_u8(ul_r, ll_r, dy, ylen);
    let left_g = lerp_u8(ul_g, ll_g, dy, ylen);
    let left_b = lerp_u8(ul_b, ll_b, dy, ylen);
    let right_r = lerp_u8(ur_r, lr_r, dy, ylen);
    let right_g = lerp_u8(ur_g, lr_g, dy, ylen);
    let right_b = lerp_u8(ur_b, lr_b, dy, ylen);
    let r = lerp_u8(left_r, right_r, dx, xlen);
    let g = lerp_u8(left_g, right_g, dx, xlen);
    let b = lerp_u8(left_b, right_b, dx, xlen);
    (ul & 0xff00_0000) | ((r as u32) << 16) | ((g as u32) << 8) | (b as u32)
}

/// Bilinear interpolation of a channel pair, foreground and background
/// independently.
pub fn gradient_channels(
    ul: u64,
    ur: u64,
    ll: u64,
    lr: u64,
    dy: usize,
    dx: usize,
    ylen: usize,
    xlen: usize,
) -> (channels: u64)
    requires
        dy < ylen,
        dx < xlen,
        ylen <= 0x7fff_ffff,
        xlen <= 0x7fff_ffff,
    ensures
        channels == grad_channels(ul, ur, ll, lr, dy as int, dx as int, ylen as int, xlen as int),
{
    let fg = gradient_channel(
        channels_fchannel(ul),
        channels_fchannel(ur),
        channels_fchannel(ll),
        channels_fchannel(lr),
        dy,
        dx,
        ylen,
        xlen,
    );
    let bg = gradient_channel(
        channels_bchannel(ul),
        channels_bchannel(ur),
        channels_bchannel(ll),
        channels_bchannel(lr),
        dy,
        dx,
        ylen,
        xlen,
    );
    ((fg as u64) << 32) | (bg as u64)
}

} // verus!
