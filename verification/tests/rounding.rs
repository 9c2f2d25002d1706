//! Integer scaling against the machine's floating point.

use autorpg_mcp::rounding::{divide_length, scale_coordinate, scale_position};

/// A small deterministic generator for test inputs.
struct Draws(u64);

impl Draws {
    fn next(&mut self) -> u64 {
        self.0 ^= self.0 << 13;
        self.0 ^= self.0 >> 7;
        self.0 ^= self.0 << 17;
        self.0
    }

    /// A value of a random number of bits.
    fn value(&mut self) -> u32 {
        let bits = self.next() % 33;
        if bits == 0 {
            0
        } else {
            (self.next() >> (64 - bits)) as u32
        }
    }
}

#[test]
fn layout_coordinates_scale_as_in_single_precision() {
    let mut draws = Draws(0x1234_5678_9ABC_DEF1);
    for _ in 0..200_000 {
        let (value, to, from) = (draws.value(), draws.value(), draws.value().max(1));
        let expected = (value as f32 * to as f32 / from as f32).round() as u32;
        assert_eq!(
            scale_coordinate(value, to, from),
            expected,
            "{value} * {to} / {from}"
        );
    }
    assert_eq!(scale_coordinate(830, 1024, 1920), 443);
    assert_eq!(scale_coordinate(982, 576, 1080), 524);
    assert_eq!(scale_coordinate(u32::MAX, u32::MAX, 1), u32::MAX);
}

#[test]
fn lengths_divide_as_in_single_precision() {
    let mut draws = Draws(0x0F1E_2D3C_4B5A_6978);
    for _ in 0..200_000 {
        let length = draws.value().max(1);
        let bits = (draws.next() % 0x7F80_0000) as u32;
        let ratio = f32::from_bits(bits.max(1));
        let expected = (length as f32 / ratio).round() as u32;
        assert_eq!(
            divide_length(length, ratio.to_bits()),
            expected,
            "{length} / {ratio}"
        );
    }
    assert_eq!(divide_length(1024, (16.0f32 / 9.0).to_bits()), 576);
}

#[test]
fn positions_scale_as_in_double_precision() {
    let mut draws = Draws(0x9E37_79B9_7F4A_7C15);
    for _ in 0..200_000 {
        let x = draws.value() as i32;
        let (source, preview) = (draws.value(), draws.value().max(1));
        let scale = source as f64 / preview as f64;
        let expected = (x as f64 * scale).round() as i32;
        assert_eq!(
            scale_position(x, source, preview),
            expected,
            "{x} * {source} / {preview}"
        );
    }
    assert_eq!(scale_position(512, 1920, 1024), 960);
    assert_eq!(scale_position(-3, 3, 2), -5);
    assert_eq!(scale_position(3, 3, 2), 5);
    assert_eq!(scale_position(i32::MIN, u32::MAX, 1), i32::MIN);
    assert_eq!(scale_position(i32::MAX, u32::MAX, 1), i32::MAX);
}

#[test]
fn the_same_size_changes_nothing() {
    for length in [1, 2, 3, 576, 1024, 1920, 3840, u32::MAX] {
        for x in [i32::MIN, -1, 0, 1, 1023, 65_537, i32::MAX] {
            assert_eq!(scale_position(x, length, length), x);
        }
        for value in [0, 1, 443, 0x3F_FFFF] {
            assert_eq!(scale_coordinate(value, length, length), value);
        }
    }
}

#[test]
fn positions_land_less_than_a_pixel_off() {
    for x in 0..1024i32 {
        let native = scale_position(x, 2560, 1024) as i64;
        assert!((native * 1024 - x as i64 * 2560).abs() < 1024);
    }
}

#[test]
fn layouts_scale_in_proportion() {
    for value in (0..1920u32).step_by(7) {
        let scaled = scale_coordinate(value, 1366, 1920) as i64;
        let exact = value as i64 * 1366;
        assert!(0x20_0000 * (scaled * 1920 - exact).abs() <= 0x10_0000 * 1920 + exact);
    }
}
