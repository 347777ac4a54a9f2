use pixelmatch::color::{blend, color_delta, rgb2i, rgb2q, rgb2y, samples_equal};

fn float_blend(c: u8, a: f64) -> u8 {
    (255.0 + ((c as f64) - 255.0) * a) as u8
}

fn float_luma(r: u8, g: u8, b: u8) -> u8 {
    ((r as f64) * 0.29889531 + (g as f64) * 0.58662247 + (b as f64) * 0.11448223) as u8
}

fn float_i(r: f64, g: f64, b: f64) -> f64 {
    r * 0.59597799 - g * 0.27417610 - b * 0.32180189
}

fn float_q(r: f64, g: f64, b: f64) -> f64 {
    r * 0.21147017 - g * 0.52261711 + b * 0.31114694
}

fn float_distance(c1: [u8; 3], c2: [u8; 3]) -> f64 {
    let y: f64 = (float_luma(c1[0], c1[1], c1[2]) as f64) - (float_luma(c2[0], c2[1], c2[2]) as f64);
    let i: f64 = float_i(c1[0] as f64, c1[1] as f64, c1[2] as f64)
        - float_i(c2[0] as f64, c2[1] as f64, c2[2] as f64);
    let q: f64 = float_q(c1[0] as f64, c1[1] as f64, c1[2] as f64)
        - float_q(c2[0] as f64, c2[1] as f64, c2[2] as f64);
    0.5053 * y * y + 0.299 * i * i + 0.1957 * q * q
}

#[test]
fn blend_keeps_an_opaque_channel() {
    assert_eq!(blend(0, 255, 255), 0);
    assert_eq!(blend(100, 255, 255), 100);
    assert_eq!(blend(255, 255, 255), 255);
}

#[test]
fn blend_turns_a_transparent_channel_white() {
    assert_eq!(blend(0, 0, 255), 255);
    assert_eq!(blend(200, 0, 255), 255);
}

#[test]
fn blend_rounds_down() {
    // 255 - 255 * 128 / 255 = 127
    assert_eq!(blend(0, 128, 255), 127);
    // 255 - 155 / 255 = 254.39..
    assert_eq!(blend(100, 1, 255), 254);
    // 255 - 237 / 10 = 231.3
    assert_eq!(blend(18, 255, 2550), 231);
    // 255 - 255 * 128 / 2550 = 242.2
    assert_eq!(blend(0, 128, 2550), 242);
}

#[test]
fn blend_agrees_with_floating_point_for_every_alpha() {
    for c in 0..=255u8 {
        for alpha in 0..=255u8 {
            assert_eq!(blend(c, alpha as u32, 255), float_blend(c, (alpha as f64) / 255.0));
            assert_eq!(
                blend(c, alpha as u32, 2550),
                float_blend(c, 0.1 * (alpha as f64) / 255.0)
            );
        }
    }
}

#[test]
fn rgb2y_of_known_colors() {
    assert_eq!(rgb2y(0, 0, 0), 0);
    assert_eq!(rgb2y(255, 255, 255), 255);
    assert_eq!(rgb2y(255, 0, 0), 76);
    assert_eq!(rgb2y(0, 255, 0), 149);
    assert_eq!(rgb2y(0, 0, 255), 29);
    // 2.9889531 + 11.7324494 + 3.4344669 = 18.1558694
    assert_eq!(rgb2y(10, 20, 30), 18);
}

#[test]
fn rgb2y_agrees_with_floating_point_for_every_color() {
    for r in 0..=255u8 {
        for g in 0..=255u8 {
            for b in 0..=255u8 {
                assert_eq!(rgb2y(r, g, b), float_luma(r, g, b));
            }
        }
    }
}

#[test]
fn rgb2i_and_rgb2q_of_known_colors() {
    assert_eq!(rgb2i(10, 20, 30), -917_779_880);
    assert_eq!(rgb2q(10, 20, 30), 99_676_770);
    assert_eq!(rgb2i(255, 0, 0), 15_197_438_745);
    assert_eq!(rgb2q(255, 0, 0), 5_392_489_335);
}

#[test]
fn gray_has_no_chrominance() {
    for v in 0..=255u8 {
        assert_eq!(rgb2i(v, v, v), 0);
        assert_eq!(rgb2q(v, v, v), 0);
        assert_eq!(rgb2y(v, v, v), v);
    }
}

#[test]
fn color_delta_of_equal_samples_is_zero() {
    let img: Vec<u8> = vec![10, 20, 30, 40, 10, 20, 30, 40];
    assert_eq!(color_delta(&img, &img, 0, 0, false), 0);
    assert_eq!(color_delta(&img, &img, 0, 4, false), 0);
    assert_eq!(color_delta(&img, &img, 0, 4, true), 0);
}

#[test]
fn color_delta_of_red_and_green() {
    let red: Vec<u8> = vec![255, 0, 0, 255];
    let green: Vec<u8> = vec![0, 255, 0, 255];
    // 24271.47846497276281691950: red is the darker of the two
    assert_eq!(color_delta(&red, &green, 0, 0, false), 2_427_147_846_497_276_281_691_950);
    assert_eq!(color_delta(&green, &red, 0, 0, false), -2_427_147_846_497_276_281_691_950);
    assert_eq!(color_delta(&red, &green, 0, 0, true), -73);
    assert_eq!(color_delta(&green, &red, 0, 0, true), 73);
}

#[test]
fn color_delta_of_black_and_white() {
    let black: Vec<u8> = vec![0, 0, 0, 255];
    let white: Vec<u8> = vec![255, 255, 255, 255];
    // 0.5053 * 255 * 255 = 32857.1325
    assert_eq!(color_delta(&black, &white, 0, 0, false), 3_285_713_250_000_000_000_000_000);
    assert_eq!(color_delta(&white, &black, 0, 0, false), -3_285_713_250_000_000_000_000_000);
    assert_eq!(color_delta(&black, &white, 0, 0, true), -255);
    assert_eq!(color_delta(&white, &black, 0, 0, true), 255);
}

#[test]
fn color_delta_is_positive_where_brightness_is_equal() {
    let a: Vec<u8> = vec![10, 20, 30, 255];
    let b: Vec<u8> = vec![10, 20, 31, 255];
    assert_eq!(color_delta(&a, &b, 0, 0, true), 0);
    assert_eq!(color_delta(&a, &b, 0, 0, false), 4_990_957_072_156_991_442);
    assert_eq!(color_delta(&b, &a, 0, 0, false), 4_990_957_072_156_991_442);
}

#[test]
fn color_delta_blends_with_white_first() {
    let clear: Vec<u8> = vec![0, 0, 0, 0];
    let white: Vec<u8> = vec![255, 255, 255, 255];
    let black: Vec<u8> = vec![0, 0, 0, 255];
    assert_eq!(color_delta(&clear, &white, 0, 0, false), 0);
    assert_eq!(color_delta(&clear, &black, 0, 0, false), -3_285_713_250_000_000_000_000_000);
    let a: Vec<u8> = vec![10, 20, 30, 128];
    let b: Vec<u8> = vec![200, 100, 50, 64];
    assert_eq!(color_delta(&a, &b, 0, 0, false), 381_844_617_829_999_427_914_228);
    assert_eq!(color_delta(&a, &b, 0, 0, true), -85);
}

#[test]
fn color_delta_reads_the_samples_at_the_offsets() {
    let img1: Vec<u8> = vec![1, 2, 3, 4, 255, 0, 0, 255];
    let img2: Vec<u8> = vec![0, 255, 0, 255, 9, 9, 9, 9, 8, 8, 8, 8];
    assert_eq!(color_delta(&img1, &img2, 4, 0, true), -73);
}

#[test]
fn color_delta_agrees_with_floating_point() {
    let levels: [u8; 6] = [0, 1, 77, 128, 200, 255];
    for r1 in levels {
        for g1 in levels {
            for b1 in levels {
                for r2 in levels {
                    for g2 in levels {
                        for b2 in levels {
                            let s1: Vec<u8> = vec![r1, g1, b1, 255];
                            let s2: Vec<u8> = vec![r2, g2, b2, 255];
                            let exact: i128 = color_delta(&s1, &s2, 0, 0, false);
                            let float: f64 = float_distance([r1, g1, b1], [r2, g2, b2]);
                            let scaled: f64 = (exact.abs() as f64) / 1e20;
                            assert!((scaled - float).abs() <= 1e-9 * (1.0 + float));
                            let brighter: bool = float_luma(r1, g1, b1) > float_luma(r2, g2, b2);
                            assert_eq!(exact < 0, brighter);
                        }
                    }
                }
            }
        }
    }
}

#[test]
fn color_delta_never_exceeds_the_largest_distance() {
    let levels: [u8; 2] = [0, 255];
    let mut largest: i128 = 0;
    for r1 in levels {
        for g1 in levels {
            for b1 in levels {
                for r2 in levels {
                    for g2 in levels {
                        for b2 in levels {
                            let s1: Vec<u8> = vec![r1, g1, b1, 255];
                            let s2: Vec<u8> = vec![r2, g2, b2, 255];
                            let d: i128 = color_delta(&s1, &s2, 0, 0, false).abs();
                            if d > largest {
                                largest = d;
                            }
                        }
                    }
                }
            }
        }
    }
    assert!(largest <= 3_521_500_000_000_000_000_000_000);
    assert!(largest > 3_500_000_000_000_000_000_000_000);
}

#[test]
fn samples_equal_compares_all_four_bytes() {
    let img1: Vec<u8> = vec![1, 2, 3, 4, 1, 2, 3, 5];
    let img2: Vec<u8> = vec![1, 2, 3, 4];
    assert!(samples_equal(&img1, &img2, 0, 0));
    assert!(!samples_equal(&img1, &img2, 4, 0));
    assert!(samples_equal(&img1, &img1, 4, 4));
    assert!(!samples_equal(&img1, &img1, 0, 4));
}
