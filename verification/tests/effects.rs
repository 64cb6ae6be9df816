use waveformchart::color::{color_from_rgb, color_to_rgb, Color};
use waveformchart::effects::{
    apply_fade, apply_gradient, apply_scalar, dim_channel, fade_factor, gradient_factor,
    scale_channel,
};
use waveformchart::level::{normalize, quantize};
use waveformchart::ratio::Ratio;
use waveformchart::style::Style;

#[test]
fn test_apply_fade() {
    let style = Style::default().fg(Color::Rgb(100, 200, 50));

    // 100% factor -> same colour
    let faded_100 = apply_fade(style, Ratio::new(1, 1));
    assert_eq!(faded_100.fg, Some(Color::Rgb(100, 200, 50)));

    // 50% factor -> half brightness
    let faded_50 = apply_fade(style, Ratio::new(1, 2));
    assert_eq!(faded_50.fg, Some(Color::Rgb(50, 100, 25)));

    // 0% factor -> black
    let faded_0 = apply_fade(style, Ratio::new(0, 1));
    assert_eq!(faded_0.fg, Some(Color::Rgb(0, 0, 0)));
}

#[test]
fn test_apply_gradient() {
    let style = Style::default().fg(Color::Rgb(0, 0, 255));

    // 0% ratio (centre) -> full brightness
    let grad_0 = apply_gradient(style, Ratio::new(0, 1));
    assert_eq!(grad_0.fg, Some(Color::Rgb(0, 0, 255)));

    // 100% ratio (peak) -> 30% brightness: 255 * 0.3 = 76.5 -> 76
    let grad_100 = apply_gradient(style, Ratio::new(1, 1));
    assert_eq!(grad_100.fg, Some(Color::Rgb(0, 0, 76)));
}

#[test]
fn fade_keeps_a_style_without_foreground() {
    let style = Style::default().bg(Color::Blue);
    assert_eq!(apply_fade(style, Ratio::new(1, 2)), style);
    assert_eq!(apply_gradient(style, Ratio::new(1, 2)), style);
    assert_eq!(apply_fade(Style::new(), Ratio::new(0, 1)), Style::default());
}

#[test]
fn fade_keeps_background_and_attributes() {
    let style = Style { fg: Some(Color::Red), bg: Some(Color::Cyan), add_modifier: 5, sub_modifier: 2 };
    let out = apply_fade(style, Ratio::new(1, 2));
    assert_eq!(out.fg, Some(Color::Rgb(85, 0, 0)));
    assert_eq!(out.bg, Some(Color::Cyan));
    assert_eq!(out.add_modifier, 5);
    assert_eq!(out.sub_modifier, 2);
}

#[test]
fn full_brightness_makes_named_colours_explicit() {
    let style = Style::default().fg(Color::LightRed);
    assert_eq!(apply_fade(style, Ratio::one()).fg, Some(Color::Rgb(255, 85, 85)));
    assert_eq!(apply_scalar(Color::Indexed(3), Ratio::new(7, 7)), Color::Rgb(170, 85, 0));
    assert_eq!(apply_scalar(Color::Reset, Ratio::one()), Color::Rgb(255, 255, 255));
}

#[test]
fn scalar_of_one_gives_the_channels_of_every_colour() {
    let colours = [
        Color::Reset,
        Color::Black,
        Color::Red,
        Color::Green,
        Color::Yellow,
        Color::Blue,
        Color::Magenta,
        Color::Cyan,
        Color::Gray,
        Color::DarkGray,
        Color::LightRed,
        Color::LightGreen,
        Color::LightYellow,
        Color::LightBlue,
        Color::LightMagenta,
        Color::LightCyan,
        Color::White,
        Color::Rgb(1, 2, 3),
        Color::Indexed(9),
        Color::Indexed(200),
    ];
    for c in colours {
        let (r, g, b) = color_to_rgb(c);
        assert_eq!(apply_scalar(c, Ratio::new(3, 3)), Color::Rgb(r, g, b));
    }
}

#[test]
fn scalar_below_one_never_brightens() {
    for num in 0..=8u64 {
        let f = Ratio::new(num, 8);
        for c in [Color::Rgb(255, 128, 1), Color::Yellow, Color::Indexed(12), Color::Rgb(0, 7, 49)] {
            let (r, g, b) = color_to_rgb(c);
            let (r2, g2, b2) = color_to_rgb(apply_scalar(c, f));
            assert!(r2 <= r && g2 <= g && b2 <= b);
        }
    }
}

#[test]
fn scale_channel_truncates() {
    assert_eq!(scale_channel(100, Ratio::new(1, 2)), 50);
    assert_eq!(scale_channel(200, Ratio::new(1, 2)), 100);
    assert_eq!(scale_channel(50, Ratio::new(1, 2)), 25);
    assert_eq!(scale_channel(51, Ratio::new(1, 2)), 25);
    assert_eq!(scale_channel(255, Ratio::new(2, 3)), 170);
    assert_eq!(scale_channel(49, Ratio::new(1, 49)), 1);
    assert_eq!(scale_channel(10, Ratio::new(99, 100)), 9);
    assert_eq!(scale_channel(0, Ratio::new(1, 1)), 0);
}

#[test]
fn scale_channel_saturates_above_one() {
    assert_eq!(scale_channel(200, Ratio::new(2, 1)), 255);
    assert_eq!(scale_channel(100, Ratio::new(2, 1)), 200);
    assert_eq!(scale_channel(255, Ratio::new(u64::MAX, 1)), 255);
}

#[test]
fn dim_channel_follows_the_gradient() {
    assert_eq!(dim_channel(255, Ratio::new(0, 4)), 255);
    assert_eq!(dim_channel(255, Ratio::new(1, 1)), 76);
    // half way out: 1 - 0.35 = 0.65; 200 * 0.65 = 130
    assert_eq!(dim_channel(200, Ratio::new(1, 2)), 130);
    // a quarter out: 1 - 0.175 = 0.825; 100 * 0.825 = 82.5 -> 82
    assert_eq!(dim_channel(100, Ratio::new(1, 4)), 82);
    // beyond ten sevenths the brightness is zero
    assert_eq!(dim_channel(255, Ratio::new(10, 7)), 0);
    assert_eq!(dim_channel(255, Ratio::new(3, 1)), 0);
}

#[test]
fn fade_factor_ramps_over_the_left_half() {
    let f = fade_factor(2, 10);
    assert_eq!((f.num, f.den), (4, 10));
    let f = fade_factor(7, 10);
    assert_eq!(f.num, f.den);
    let f = fade_factor(0, 10);
    assert_eq!(f.num, 0);
    // the middle column is at full brightness by the ramp itself
    let f = fade_factor(5, 10);
    assert_eq!(f.num, f.den);
    let f = fade_factor(4, 9);
    assert_eq!((f.num, f.den), (8, 9));
    let f = fade_factor(5, 9);
    assert_eq!((f.num, f.den), (1, 1));
}

#[test]
fn fade_factor_never_falls() {
    for total in 1u16..40 {
        let mut last = fade_factor(0, total);
        for column in 0..total {
            let f = fade_factor(column, total);
            assert!(f.num <= f.den);
            assert!((last.num as u128) * (f.den as u128) <= (f.num as u128) * (last.den as u128));
            if 2 * column >= total {
                assert_eq!(f.num, f.den);
            }
            last = f;
        }
    }
}

#[test]
fn fade_at_column_two_of_ten_is_two_fifths() {
    let f = fade_factor(2, 10);
    assert_eq!(f.num * 5, f.den * 2);
    let f = fade_factor(7, 10);
    assert_eq!(f.num, f.den);
}

#[test]
fn fade_of_one_half_truncates_each_channel() {
    let out = apply_fade(Style::default().fg(Color::Rgb(100, 200, 50)), fade_factor(1, 4));
    assert_eq!(out.fg, Some(Color::Rgb(50, 100, 25)));
}

#[test]
fn gradient_factor_runs_from_one_to_three_tenths() {
    let f = gradient_factor(0, 8);
    assert_eq!(f.num, f.den);
    let f = gradient_factor(8, 8);
    assert_eq!(f.num * 10, f.den * 3);
    let f = gradient_factor(4, 8);
    assert_eq!((f.num, f.den), (52, 80));
    let f = gradient_factor(65535, 1);
    assert_eq!(f.num, 0);
    assert_eq!(scale_channel(255, gradient_factor(1, 1)), 76);
    assert_eq!(scale_channel(200, gradient_factor(1, 2)), dim_channel(200, Ratio::new(1, 2)));
}

#[test]
fn gradient_then_fade_truncates_twice() {
    // gradient at 1/3: 1 - 0.7/3 = 23/30; 100 * 23 / 30 = 76.67 -> 76
    // fade at 1/3: 76 / 3 = 25.33 -> 25 (one truncation alone would give 25.55 -> 25)
    let style = Style::default().fg(Color::Rgb(100, 101, 7));
    let graded = apply_gradient(style, Ratio::new(1, 3));
    assert_eq!(graded.fg, Some(Color::Rgb(76, 77, 5)));
    let out = apply_fade(graded, Ratio::new(1, 3));
    assert_eq!(out.fg, Some(Color::Rgb(25, 25, 1)));
}

#[test]
fn normalize_clamps_to_the_unit_interval() {
    let v = normalize(-5, 10);
    assert_eq!((v.num, v.den), (0, 10));
    let v = normalize(0, 10);
    assert_eq!((v.num, v.den), (0, 10));
    let v = normalize(3, 10);
    assert_eq!((v.num, v.den), (3, 10));
    let v = normalize(10, 10);
    assert_eq!((v.num, v.den), (10, 10));
    let v = normalize(25, 10);
    assert_eq!((v.num, v.den), (10, 10));
    let v = normalize(i64::MIN, i64::MAX);
    assert_eq!(v.num, 0);
    let v = normalize(i64::MAX, 1);
    assert_eq!((v.num, v.den), (1, 1));
}

#[test]
fn quantize_rounds_to_the_nearest_unit() {
    assert_eq!(quantize(Ratio::new(0, 2), 16), 0);
    assert_eq!(quantize(Ratio::new(1, 2), 16), 8);
    assert_eq!(quantize(Ratio::new(2, 2), 16), 16);
    // 0.3 * 16 = 4.8 -> 5
    assert_eq!(quantize(Ratio::new(3, 10), 16), 5);
    // 0.28 * 16 = 4.48 -> 4
    assert_eq!(quantize(Ratio::new(28, 100), 16), 4);
    // a half rounds up: 0.5 * 5 = 2.5 -> 3
    assert_eq!(quantize(Ratio::new(1, 2), 5), 3);
    // 1/32 * 16 = 0.5 -> 1, just below stays 0
    assert_eq!(quantize(Ratio::new(1, 32), 16), 1);
    assert_eq!(quantize(Ratio::new(1, 33), 16), 0);
    assert_eq!(quantize(Ratio::new(1, 1), 0), 0);
    assert_eq!(quantize(Ratio::new(u64::MAX, u64::MAX), u32::MAX), u32::MAX);
    assert_eq!(quantize(Ratio::new(u64::MAX - 1, u64::MAX), u32::MAX), u32::MAX);
}

#[test]
fn quantize_never_falls_as_the_value_rises() {
    for total in [0u32, 1, 4, 16, 17, 400] {
        let mut last = 0;
        for sample in -3i64..=45 {
            let units = quantize(normalize(sample, 40), total);
            assert!(units >= last);
            assert!(units <= total);
            last = units;
        }
        assert_eq!(last, total);
    }
}

#[test]
fn colours_convert_to_rgb() {
    assert_eq!(color_to_rgb(Color::Rgb(9, 8, 7)), (9, 8, 7));
    let palette = [
        (0, 0, 0),
        (170, 0, 0),
        (0, 170, 0),
        (170, 85, 0),
        (0, 0, 170),
        (170, 0, 170),
        (0, 170, 170),
        (170, 170, 170),
        (85, 85, 85),
        (255, 85, 85),
        (85, 255, 85),
        (255, 255, 85),
        (85, 85, 255),
        (255, 85, 255),
        (85, 255, 255),
        (255, 255, 255),
    ];
    let named = [
        Color::Black,
        Color::Red,
        Color::Green,
        Color::Yellow,
        Color::Blue,
        Color::Magenta,
        Color::Cyan,
        Color::Gray,
        Color::DarkGray,
        Color::LightRed,
        Color::LightGreen,
        Color::LightYellow,
        Color::LightBlue,
        Color::LightMagenta,
        Color::LightCyan,
        Color::White,
    ];
    for i in 0..16u8 {
        assert_eq!(color_to_rgb(Color::Indexed(i)), palette[i as usize]);
        assert_eq!(color_to_rgb(named[i as usize]), palette[i as usize]);
    }
}

#[test]
fn unknown_colours_fall_back_to_white() {
    assert_eq!(color_to_rgb(Color::Indexed(16)), (255, 255, 255));
    assert_eq!(color_to_rgb(Color::Indexed(255)), (255, 255, 255));
    assert_eq!(color_to_rgb(Color::Reset), (255, 255, 255));
}

#[test]
fn rgb_round_trips_through_a_colour() {
    assert_eq!(color_from_rgb(1, 2, 3), Color::Rgb(1, 2, 3));
    assert_eq!(color_to_rgb(color_from_rgb(250, 0, 17)), (250, 0, 17));
}
