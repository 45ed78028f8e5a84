use clipcrypt::rounding::{nearest_double_of, power_of_two, shifted_up, truncate_to_u32};
use clipcrypt::thumbnail::{calculate_thumbnail_dimensions, MAX_IMAGE_SIZE};

/// The same sizes, computed in double precision.
fn in_double_precision(width: u32, height: u32) -> (u32, u32) {
    let aspect_ratio = width as f64 / height as f64;
    if width > MAX_IMAGE_SIZE || height > MAX_IMAGE_SIZE {
        if width > height {
            (MAX_IMAGE_SIZE, (MAX_IMAGE_SIZE as f64 / aspect_ratio) as u32)
        } else {
            ((MAX_IMAGE_SIZE as f64 * aspect_ratio) as u32, MAX_IMAGE_SIZE)
        }
    } else {
        (width, height)
    }
}

#[test]
fn image_that_fits_is_kept() {
    assert_eq!(calculate_thumbnail_dimensions(100, 50), (100, 50));
    assert_eq!(calculate_thumbnail_dimensions(0, 0), (0, 0));
    assert_eq!(
        calculate_thumbnail_dimensions(MAX_IMAGE_SIZE, MAX_IMAGE_SIZE),
        (MAX_IMAGE_SIZE, MAX_IMAGE_SIZE)
    );
}

#[test]
fn wide_image_is_scaled_to_the_longest_side() {
    assert_eq!(calculate_thumbnail_dimensions(2560, 1440), (1280, 720));
    assert_eq!(calculate_thumbnail_dimensions(1281, 1), (1280, 0));
    assert_eq!(calculate_thumbnail_dimensions(4000, 3000), (1280, 960));
}

#[test]
fn tall_image_is_scaled_to_the_longest_side() {
    assert_eq!(calculate_thumbnail_dimensions(1000, 2000), (640, 1280));
    assert_eq!(calculate_thumbnail_dimensions(3000, 4000), (960, 1280));
}

#[test]
fn square_image_is_scaled_on_both_sides() {
    assert_eq!(calculate_thumbnail_dimensions(1281, 1281), (1280, 1280));
    assert_eq!(calculate_thumbnail_dimensions(5000, 5000), (1280, 1280));
}

#[test]
fn scaled_side_loses_its_fraction() {
    // 1280 * 1000 / 3000 = 426.67
    assert_eq!(calculate_thumbnail_dimensions(3000, 1000), (1280, 426));
    // 1280 * 1279 / 1281 = 1278.0016
    assert_eq!(calculate_thumbnail_dimensions(1281, 1279), (1280, 1278));
}

#[test]
fn empty_side_stays_empty() {
    assert_eq!(calculate_thumbnail_dimensions(0, 5000), (0, 1280));
    assert_eq!(calculate_thumbnail_dimensions(5000, 0), (1280, 0));
    assert_eq!(calculate_thumbnail_dimensions(u32::MAX, 0), (1280, 0));
    assert_eq!(calculate_thumbnail_dimensions(0, u32::MAX), (0, 1280));
}

#[test]
fn largest_images_do_not_overflow() {
    assert_eq!(calculate_thumbnail_dimensions(u32::MAX, u32::MAX), (1280, 1280));
    assert_eq!(calculate_thumbnail_dimensions(u32::MAX, 1), (1280, 0));
    assert_eq!(calculate_thumbnail_dimensions(1, u32::MAX), (0, 1280));
    assert_eq!(calculate_thumbnail_dimensions(u32::MAX, u32::MAX - 1), (1280, 1279));
    assert_eq!(calculate_thumbnail_dimensions(u32::MAX - 1, u32::MAX), (1279, 1280));
}

#[test]
fn longest_side_is_1280() {
    assert_eq!(MAX_IMAGE_SIZE, 1280);
}

#[test]
fn rounding_twice_can_cost_a_pixel_on_a_wide_image() {
    // 1280 * 957 / 1320 is 928 without remainder, but the proportion rounds
    // up and the quotient then falls just below 928.
    assert_eq!(calculate_thumbnail_dimensions(1320, 957), (1280, 927));
    assert_eq!(calculate_thumbnail_dimensions(1360, 493), (1280, 463));
    assert_eq!(calculate_thumbnail_dimensions(2560, 2042), (1280, 1020));
}

#[test]
fn tall_image_with_an_exact_proportion_keeps_it() {
    assert_eq!(calculate_thumbnail_dimensions(957, 1320), (928, 1280));
    assert_eq!(calculate_thumbnail_dimensions(493, 1360), (464, 1280));
    assert_eq!(calculate_thumbnail_dimensions(2042, 2560), (1021, 1280));
}

#[test]
fn sizes_are_those_of_double_precision_on_a_grid() {
    for width in 0..1700u32 {
        for height in 0..1700u32 {
            assert_eq!(
                calculate_thumbnail_dimensions(width, height),
                in_double_precision(width, height),
                "{} by {}",
                width,
                height
            );
        }
    }
}

#[test]
fn sizes_are_those_of_double_precision_on_exact_proportions() {
    // Every size whose scaled side is a whole number in exact arithmetic.
    for side in 1..=1280u32 {
        for factor in 1..300u32 {
            let long = 1280 * factor / gcd(1280, side);
            let short = side * factor / gcd(1280, side);
            assert_eq!(
                calculate_thumbnail_dimensions(long, short),
                in_double_precision(long, short),
                "{} by {}",
                long,
                short
            );
            assert_eq!(
                calculate_thumbnail_dimensions(short, long),
                in_double_precision(short, long),
                "{} by {}",
                short,
                long
            );
        }
    }
}

#[test]
fn sizes_are_those_of_double_precision_on_scattered_sizes() {
    // A small generator of its own, so that the sizes are the same each run.
    let mut state: u64 = 0x9e37_79b9_7f4a_7c15;
    let mut next = move || {
        state ^= state << 13;
        state ^= state >> 7;
        state ^= state << 17;
        state
    };
    for round in 0..200_000u32 {
        let a = next();
        let b = next();
        let (width, height) = match round % 4 {
            0 => (a as u32, b as u32),
            1 => (a as u32, (b % 5000) as u32),
            2 => ((a % 5000) as u32, b as u32),
            _ => ((a % 100_000) as u32, (b % 100_000) as u32),
        };
        assert_eq!(
            calculate_thumbnail_dimensions(width, height),
            in_double_precision(width, height),
            "{} by {}",
            width,
            height
        );
    }
}

fn gcd(a: u32, b: u32) -> u32 {
    if b == 0 {
        a
    } else {
        gcd(b, a % b)
    }
}

#[test]
fn nearest_double_of_a_third() {
    // 1/3 = 1.0101...01|0101... * 2^-2: the mantissa rounds down.
    let (mantissa, up, down) = nearest_double_of(1, 3);
    assert_eq!((mantissa, up, down), (0x15_5555_5555_5555, 0, 2));
    assert_eq!(1.0f64 / 3.0, mantissa as f64 / (1u128 << 54) as f64);
}

#[test]
fn nearest_double_of_two_thirds_rounds_up() {
    let (mantissa, up, down) = nearest_double_of(2, 3);
    assert_eq!((mantissa, up, down), (0x15_5555_5555_5555, 0, 1));
    let (mantissa, up, down) = nearest_double_of(10, 3);
    assert_eq!((mantissa, up, down), (0x1a_aaaa_aaaa_aaab, 1, 0));
}

#[test]
fn nearest_double_of_large_sides() {
    let big = (1u128 << 126) - 1;
    assert_eq!(nearest_double_of(big, big), (1u128 << 52, 0, 0));
    // (2^126 - 1) / 1 rounds up to 2^126.
    assert_eq!(nearest_double_of(big, 1), (1u128 << 53, 125, 0));
    assert_eq!(nearest_double_of(1, 1u128 << 125), (1u128 << 52, 0, 125));
}

#[test]
fn nearest_double_of_a_whole_number_is_exact() {
    assert_eq!(nearest_double_of(1, 1), (1u128 << 52, 0, 0));
    assert_eq!(nearest_double_of(8, 1), (1u128 << 52, 3, 0));
    assert_eq!(nearest_double_of(3, 4), (3u128 << 51, 0, 1));
}

#[test]
fn a_tie_goes_to_the_even_mantissa() {
    // (2^53 + 1) / 2^53 lies midway between two doubles; the even one is 1.
    assert_eq!(nearest_double_of((1u128 << 53) + 1, 1u128 << 53), (1u128 << 52, 0, 0));
    // (2^53 + 3) / 2^53 lies midway too; the even neighbour is the upper one.
    assert_eq!(
        nearest_double_of((1u128 << 53) + 3, 1u128 << 53),
        ((1u128 << 52) + 2, 0, 0)
    );
}

#[test]
fn shifts_and_powers() {
    assert_eq!(shifted_up(1280, 0), 1280);
    assert_eq!(shifted_up(1280, 52), 1280u128 << 52);
    assert_eq!(shifted_up(3, 62), 3u128 << 62);
    assert_eq!(shifted_up(0, 500), 0);
    assert_eq!(power_of_two(0), 1);
    assert_eq!(power_of_two(99), 1u128 << 99);
    assert_eq!(power_of_two(127), 1u128 << 127);
}

#[test]
fn truncation_drops_the_fraction_and_saturates() {
    // 1.5 * 2^9 = 768
    assert_eq!(truncate_to_u32(3u128 << 51, 9, 0), 768);
    // 1.75 = 7 * 2^-2
    assert_eq!(truncate_to_u32(7u128 << 50, 0, 0), 1);
    // 0.875
    assert_eq!(truncate_to_u32(7u128 << 50, 0, 1), 0);
    // 2^40 is past 32 bits
    assert_eq!(truncate_to_u32(1u128 << 52, 40, 0), u32::MAX);
    assert_eq!(truncate_to_u32(1u128 << 52, 60, 0), u32::MAX);
    // 2^32 - 1 is the last that fits
    assert_eq!(truncate_to_u32((1u128 << 53) - (1u128 << 21), 31, 0), u32::MAX);
    assert_eq!(truncate_to_u32(1u128 << 52, 31, 0), 1u32 << 31);
    // far below one
    assert_eq!(truncate_to_u32(1u128 << 53, 0, 2), 0);
    assert_eq!(truncate_to_u32(1u128 << 53, 0, 1000), 0);
}
