//! The two brightness effects and their application to a colour.
//!
//! The fade dims the columns of the left half, the gradient dims the rows
//! away from the centre. Both scale each channel of a colour by an exact
//! ratio and round down.

use vstd::prelude::*;
use crate::color::{color_from_rgb, color_to_rgb, rgb_of, Color};
use crate::ratio::{
    floor_of, lemma_floor_bounds, lemma_floor_monotone, lemma_floor_ordered, Ratio,
};
use crate::style::Style;

verus! {

/// Brightness of column `column` of `total`: the left half ramps from zero
/// to one, the right half is at full brightness.
pub open spec fn fade_of(column: int, total: int) -> Ratio {
    if 2 * column > total {
        Ratio { num: 1, den: 1 }
    } else {
        Ratio { num: (2 * column) as u64, den: total as u64 }
    }
}

/// Brightness of the row `row_offset` rows away from the centre, of
/// `max_offset`: one at the centre, falling by seven tenths of the
/// distance covered, and never below zero.
pub open spec fn gradient_of(row_offset: int, max_offset: int) -> Ratio {
    if 7 * row_offset >= 10 * max_offset {
        Ratio { num: 0, den: (10 * max_offset) as u64 }
    } else {
        Ratio { num: (10 * max_offset - 7 * row_offset) as u64, den: (10 * max_offset) as u64 }
    }
}

/// A channel scaled by a factor: the product rounded down, and 255 where
/// the product is larger.
pub open spec fn scaled(channel: u8, factor: Ratio) -> u8 {
    let v = floor_of(channel as int, factor.num as int, factor.den as int);
    if v > 255 {
        255u8
    } else {
        v as u8
    }
}

/// A channel dimmed by the gradient at the height `ratio`: scaled by
/// `1 - 0.7 * ratio`, or zero where that is negative.
pub open spec fn dimmed(channel: u8, ratio: Ratio) -> u8 {
    if 7 * ratio.num >= 10 * ratio.den {
        0u8
    } else {
        floor_of(channel as int, 10 * ratio.den - 7 * ratio.num, 10 * ratio.den) as u8
    }
}

/// A colour scaled by a factor, channel by channel.
pub open spec fn tinted(color: Color, factor: Ratio) -> Color {
    let (r, g, b) = rgb_of(color);
    Color::Rgb(scaled(r, factor), scaled(g, factor), scaled(b, factor))
}

/// A style after the fade: a style without a foreground is unchanged, any
/// other gets its foreground scaled and made explicit.
pub open spec fn faded(style: Style, factor: Ratio) -> Style {
    match style.fg {
        Some(color) => Style { fg: Some(tinted(color, factor)), ..style },
        None => style,
    }
}

/// A style after the gradient at the height `ratio`.
pub open spec fn graded(style: Style, ratio: Ratio) -> Style {
    match style.fg {
        Some(color) => {
            let (r, g, b) = rgb_of(color);
            Style {
                fg: Some(Color::Rgb(dimmed(r, ratio), dimmed(g, ratio), dimmed(b, ratio))),
                ..style
            }
        },
        None => style,
    }
}

/// The fade factor of a column: `2 * column / total` in the left half and
/// at the middle, one to the right of it.
pub fn fade_factor(column: u16, total: u16) -> (factor: Ratio)
    requires
        total > 0,
    ensures
        factor == fade_of(column as int, total as int),
        factor.at_most_one(),
        2 * column >= total ==> factor.is_one(),
{
    let twice: u64 = 2 * (column as u64);
    if twice > total as u64 {
        Ratio { num: 1, den: 1 }
    } else {
        Ratio { num: twice, den: total as u64 }
    }
}

/// The gradient brightness of a row: `1 - 0.7 * row_offset / max_offset`,
/// so one at the centre and three tenths at the outermost row.
pub fn gradient_factor(row_offset: u16, max_offset: u16) -> (factor: Ratio)
    requires
        max_offset > 0,
    ensures
        factor == gradient_of(row_offset as int, max_offset as int),
        factor.at_most_one(),
        row_offset == 0 ==> factor.is_one(),
        row_offset == max_offset ==> 10 * factor.num == 3 * factor.den,
{
    let whole: u64 = 10 * (max_offset as u64);
    let lost: u64 = 7 * (row_offset as u64);
    if lost >= whole {
        Ratio { num: 0, den: whole }
    } else {
        Ratio { num: whole - lost, den: whole }
    }
}

/// Scales one channel by a factor, rounding down and saturating at 255.
pub fn scale_channel(channel: u8, factor: Ratio) -> (out: u8)
    requires
        factor.wf(),
    ensures
        out == scaled(channel, factor),
        factor.at_most_one() ==> out <= channel,
        factor.is_one() ==> out == channel,
{
    proof {
        lemma_scaled_bounds(channel, factor);
        assert(channel as int * factor.num as int <= 255 * 0xffff_ffff_ffff_ffff) by (
            nonlinear_arith)
            requires
                0 <= channel as int <= 255,
                0 <= factor.num as int <= 0xffff_ffff_ffff_ffff,
        ;
    }
    let product: u128 = (channel as u128) * (factor.num as u128);
    let v: u128 = product / (factor.den as u128);
    if v > 255 {
        255
    } else {
        v as u8
    }
}

/// Dims one channel by the gradient at the height `ratio`.
pub fn dim_channel(channel: u8, ratio: Ratio) -> (out: u8)
    requires
        ratio.wf(),
    ensures
        out == dimmed(channel, ratio),
        out <= channel,
        ratio.num == 0 ==> out == channel,
{
    let whole: u128 = 10 * (ratio.den as u128);
    let lost: u128 = 7 * (ratio.num as u128);
    if lost >= whole {
        0
    } else {
        let bright: u128 = whole - lost;
        proof {
            lemma_floor_bounds(channel as int, bright as int, whole as int);
            assert(channel as int * bright as int <= 255 * whole as int) by (nonlinear_arith)
                requires
                    0 <= channel as int <= 255,
                    0 <= bright as int <= whole as int,
            ;
        }
        let v: u128 = (channel as u128) * bright / whole;
        v as u8
    }
}

/// Scales a colour by a factor. The result is always explicit, also at a
/// factor of one, where it holds the channels of the colour itself.
pub fn apply_scalar(color: Color, factor: Ratio) -> (out: Color)
    requires
        factor.wf(),
    ensures
        out == tinted(color, factor),
        out is Rgb,
        factor.is_one() ==> rgb_of(out) == rgb_of(color),
        factor.at_most_one() ==> rgb_of(out).0 <= rgb_of(color).0,
        factor.at_most_one() ==> rgb_of(out).1 <= rgb_of(color).1,
        factor.at_most_one() ==> rgb_of(out).2 <= rgb_of(color).2,
{
    let (r, g, b) = color_to_rgb(color);
    color_from_rgb(scale_channel(r, factor), scale_channel(g, factor), scale_channel(b, factor))
}

/// Fades a style: scales its foreground by `factor` and makes it explicit.
/// A style without a foreground is returned as it is.
pub fn apply_fade(style: Style, factor: Ratio) -> (out: Style)
    requires
        factor.wf(),
    ensures
        out == faded(style, factor),
        style.fg is None ==> out == style,
        style.fg is Some ==> out.fg is Some && out.fg.unwrap() is Rgb,
{
    match style.fg {
        Some(color) => style.fg(apply_scalar(color, factor)),
        None => style,
    }
}

/// Applies the gradient to a style at the height `ratio` between the centre
/// (zero) and the outermost row (one). A style without a foreground is
/// returned as it is.
pub fn apply_gradient(style: Style, ratio: Ratio) -> (out: Style)
    requires
        ratio.wf(),
    ensures
        out == graded(style, ratio),
        style.fg is None ==> out == style,
        style.fg is Some ==> out.fg is Some && out.fg.unwrap() is Rgb,
{
    match style.fg {
        Some(color) => {
            let (r, g, b) = color_to_rgb(color);
            style.fg(
                color_from_rgb(dim_channel(r, ratio), dim_channel(g, ratio), dim_channel(b, ratio)),
            )
        },
        None => style,
    }
}

/// A factor of one gives the channel itself, and a factor of at most one
/// never more than the channel.
pub proof fn lemma_scaled_bounds(channel: u8, factor: Ratio)
    requires
        factor.wf(),
    ensures
        factor.at_most_one() ==> scaled(channel, factor) <= channel,
        factor.is_one() ==> scaled(channel, factor) == channel,
        factor.num == 0 ==> scaled(channel, factor) == 0,
        floor_of(channel as int, factor.num as int, factor.den as int) >= 0,
{
    lemma_floor_monotone(channel as int, 0, factor.num as int, factor.den as int);
    if factor.at_most_one() {
        lemma_floor_bounds(channel as int, factor.num as int, factor.den as int);
    }
    if factor.num == 0 {
        assert(channel as int * 0 == 0);
    }
}

/// Scaling a colour by one gives exactly the channels of the colour.
pub proof fn lemma_scale_by_one(color: Color, factor: Ratio)
    requires
        factor.is_one(),
    ensures
        tinted(color, factor) == Color::Rgb(rgb_of(color).0, rgb_of(color).1, rgb_of(color).2),
        rgb_of(tinted(color, factor)) == rgb_of(color),
{
    let (r, g, b) = rgb_of(color);
    lemma_scaled_bounds(r, factor);
    lemma_scaled_bounds(g, factor);
    lemma_scaled_bounds(b, factor);
}

/// Scaling a colour by a factor between zero and one raises no channel.
pub proof fn lemma_scale_never_brightens(color: Color, factor: Ratio)
    requires
        factor.at_most_one(),
    ensures
        rgb_of(tinted(color, factor)).0 <= rgb_of(color).0,
        rgb_of(tinted(color, factor)).1 <= rgb_of(color).1,
        rgb_of(tinted(color, factor)).2 <= rgb_of(color).2,
{
    let (r, g, b) = rgb_of(color);
    lemma_scaled_bounds(r, factor);
    lemma_scaled_bounds(g, factor);
    lemma_scaled_bounds(b, factor);
}

/// Scaling a colour by a larger factor lowers no channel.
pub proof fn lemma_scale_monotone(color: Color, lower: Ratio, higher: Ratio)
    requires
        lower.wf(),
        higher.wf(),
        lower.le(higher),
    ensures
        rgb_of(tinted(color, lower)).0 <= rgb_of(tinted(color, higher)).0,
        rgb_of(tinted(color, lower)).1 <= rgb_of(tinted(color, higher)).1,
        rgb_of(tinted(color, lower)).2 <= rgb_of(tinted(color, higher)).2,
{
    let (r, g, b) = rgb_of(color);
    lemma_floor_ordered(
        r as int,
        lower.num as int,
        lower.den as int,
        higher.num as int,
        higher.den as int,
    );
    lemma_floor_ordered(
        g as int,
        lower.num as int,
        lower.den as int,
        higher.num as int,
        higher.den as int,
    );
    lemma_floor_ordered(
        b as int,
        lower.num as int,
        lower.den as int,
        higher.num as int,
        higher.den as int,
    );
    lemma_scaled_bounds(r, lower);
    lemma_scaled_bounds(g, lower);
    lemma_scaled_bounds(b, lower);
}

/// The fade factor never falls from one column to a later one, and is one
/// from the middle of the width on.
pub proof fn lemma_fade_monotone(earlier: int, later: int, total: int)
    requires
        0 <= earlier <= later,
        0 < total <= u16::MAX,
        later <= u16::MAX,
    ensures
        fade_of(earlier, total).le(fade_of(later, total)),
        fade_of(later, total).at_most_one(),
        2 * later >= total ==> fade_of(later, total).is_one(),
{
    let a = fade_of(earlier, total);
    let b = fade_of(later, total);
    if 2 * later > total {
        if 2 * earlier > total {
        } else {
            assert(a.num * 1 <= 1 * a.den);
        }
    } else {
        assert(a.num == 2 * earlier && b.num == 2 * later && a.den == total && b.den == total);
        assert((2 * earlier) * total <= (2 * later) * total) by (nonlinear_arith)
            requires
                0 <= earlier <= later,
                0 < total,
        ;
    }
}

/// The gradient is one at the centre and three tenths at the outermost row,
/// and dims a channel exactly as scaling by its factor does.
pub proof fn lemma_gradient_ends(max_offset: int, channel: u8, row_offset: int)
    requires
        0 < max_offset <= u16::MAX,
        0 <= row_offset <= u16::MAX,
    ensures
        gradient_of(0, max_offset).is_one(),
        gradient_of(max_offset, max_offset).same(Ratio { num: 3, den: 10 }),
        dimmed(channel, Ratio { num: row_offset as u64, den: max_offset as u64 }) == scaled(
            channel,
            gradient_of(row_offset, max_offset),
        ),
{
    let f = gradient_of(row_offset, max_offset);
    lemma_scaled_bounds(channel, f);
    if 7 * row_offset < 10 * max_offset {
        lemma_floor_bounds(channel as int, f.num as int, f.den as int);
    }
}

} // verus!
