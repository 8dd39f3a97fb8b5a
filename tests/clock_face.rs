use binary_clock::bcd::{decimal_value, digit_to_rev_bin, pad2, pad4};
use binary_clock::clock::{draw_clock, draw_digits, dttobcd, CalendarFields};
use binary_clock::pixel::{Pixel, NUM_LEDS};

const BLACK: Pixel = Pixel { r: 0, g: 0, b: 0 };
const WHITE: Pixel = Pixel { r: 255, g: 255, b: 255 };

// 2024-01-15 13:05:09 UTC, which is 07:05:09 in US Central (standard) time.
const MORNING_MICROS: u64 = 1_705_323_909_000_000;

fn column_bits(data: &[Pixel; NUM_LEDS], width: usize, x: usize, y_offset: usize) -> u32 {
    let mut v = 0u32;
    for b in 0..4 {
        let p = data[x + (y_offset + b) * width];
        assert!(p == WHITE || p == BLACK);
        if p == WHITE {
            v |= 1 << b;
        }
    }
    v
}

#[test]
fn pad2_zero_pads() {
    assert_eq!(pad2(7).as_str(), "07");
    assert_eq!(pad2(42).as_str(), "42");
    assert_eq!(pad2(0).as_str(), "00");
}

#[test]
fn pad4_zero_pads() {
    assert_eq!(pad4(2024).as_str(), "2024");
    assert_eq!(pad4(7).as_str(), "0007");
    assert_eq!(pad4(9999).as_str(), "9999");
}

#[test]
fn pad2_round_trips_every_value() {
    for n in 0..100u32 {
        let s = pad2(n);
        let chars: Vec<char> = s.chars().collect();
        assert_eq!(chars.len(), 2);
        let tens = decimal_value(chars[0]).unwrap();
        let ones = decimal_value(chars[1]).unwrap();
        assert_eq!(tens * 10 + ones, n);
    }
}

#[test]
fn decimal_value_rejects_non_digits() {
    assert_eq!(decimal_value('0'), Some(0));
    assert_eq!(decimal_value('9'), Some(9));
    assert_eq!(decimal_value('a'), None);
    assert_eq!(decimal_value(':'), None);
}

#[test]
fn rev_bin_is_least_significant_first() {
    assert_eq!(digit_to_rev_bin(0).as_str(), "0000");
    assert_eq!(digit_to_rev_bin(1).as_str(), "1000");
    assert_eq!(digit_to_rev_bin(6).as_str(), "0110");
    assert_eq!(digit_to_rev_bin(9).as_str(), "1001");
}

#[test]
fn rev_bin_round_trips_every_digit() {
    for d in 0..10u32 {
        let s = digit_to_rev_bin(d);
        let mut v = 0u32;
        assert_eq!(s.len(), 4);
        for (b, c) in s.chars().enumerate() {
            if c == '1' {
                v += 1 << b;
            }
        }
        assert_eq!(v, d);
        assert!(d < 16);
    }
}

#[test]
fn draw_digits_right_aligns_columns() {
    let mut data = [Pixel { r: 1, g: 2, b: 3 }; NUM_LEDS];
    draw_digits(&mut data, &[3, 8], 16, 0);
    assert_eq!(column_bits(&data, 16, 15, 0), 3);
    assert_eq!(column_bits(&data, 16, 14, 0), 8);
    // untouched pixels keep their colour
    assert_eq!(data[13], Pixel { r: 1, g: 2, b: 3 });
    assert_eq!(data[4 * 16 + 15], Pixel { r: 1, g: 2, b: 3 });
}

#[test]
fn morning_time_renders_expected_columns() {
    let mut data = [WHITE; NUM_LEDS];
    assert!(dttobcd(&mut data, MORNING_MICROS, 16, 10));
    let expected_time = [0, 7, 0, 5, 0, 9];
    for (d, &digit) in expected_time.iter().enumerate() {
        assert_eq!(column_bits(&data, 16, 15 - d, 0), digit);
    }
    // left of the six digits, and the spacer row, stay black
    for x in 0..10 {
        assert_eq!(column_bits(&data, 16, x, 0), 0);
    }
    for x in 0..16 {
        assert_eq!(data[x + 4 * 16], BLACK);
    }
    // date: day shown one above the calendar day (15 -> 16), month 01, year 2024
    let expected_date = [1, 6, 0, 1, 2, 0, 2, 4];
    for (d, &digit) in expected_date.iter().enumerate() {
        assert_eq!(column_bits(&data, 16, 15 - d, 5), digit);
    }
    for i in 9 * 16..NUM_LEDS {
        assert_eq!(data[i], BLACK);
    }
}

#[test]
fn narrow_strip_drops_columns_without_failing() {
    let mut data = [WHITE; NUM_LEDS];
    assert!(dttobcd(&mut data, MORNING_MICROS, 4, 10));
    // the four rightmost columns hold the first four digits
    assert_eq!(column_bits(&data, 4, 3, 0), 0);
    assert_eq!(column_bits(&data, 4, 2, 0), 7);
    assert_eq!(column_bits(&data, 4, 1, 0), 0);
    assert_eq!(column_bits(&data, 4, 0, 0), 5);
    assert_eq!(column_bits(&data, 4, 0, 5), 1);
    for i in 9 * 4..NUM_LEDS {
        assert_eq!(data[i], BLACK);
    }
}

#[test]
fn wide_strip_skips_pixels_past_the_end() {
    let mut data = [WHITE; NUM_LEDS];
    assert!(dttobcd(&mut data, MORNING_MICROS, 40, 10));
    // row 0 fits; rows past the strip's end are skipped
    assert_eq!(data[39 - 1], WHITE); // hour ones digit 7, bit 0
    assert_eq!(data[39], BLACK); // hour tens digit 0, bit 0
    assert_eq!(data[39 - 1 + 40], WHITE); // bit 1 of 7
    assert_eq!(data[39 - 1 + 3 * 40], BLACK); // bit 3 of 7
}

#[test]
fn draw_clock_shows_given_fields() {
    let f = CalendarFields { hour: 23, minute: 59, second: 58, day: 31, month: 12, year: -44 };
    let mut data = [WHITE; NUM_LEDS];
    draw_clock(&mut data, &f, 16);
    let expected_time = [2, 3, 5, 9, 5, 8];
    for (d, &digit) in expected_time.iter().enumerate() {
        assert_eq!(column_bits(&data, 16, 15 - d, 0), digit);
    }
    let expected_date = [3, 2, 1, 2, 0, 0, 4, 4];
    for (d, &digit) in expected_date.iter().enumerate() {
        assert_eq!(column_bits(&data, 16, 15 - d, 5), digit);
    }
}

#[test]
fn timestamp_beyond_i64_is_not_shown() {
    let mut data = [WHITE; NUM_LEDS];
    assert!(!dttobcd(&mut data, u64::MAX, 16, 10));
    assert!(data.iter().all(|p| *p == BLACK));
}

#[test]
fn five_digit_year_is_not_shown() {
    // 10000-01-02 00:00:00 UTC
    let micros: u64 = (253_402_300_800 + 86_400) * 1_000_000;
    let mut data = [WHITE; NUM_LEDS];
    assert!(!dttobcd(&mut data, micros, 16, 10));
    assert!(data.iter().all(|p| *p == BLACK));
}

#[test]
fn last_four_digit_year_is_shown() {
    // 9999-12-31 12:00:00 UTC, 06:00 in US Central
    let micros: u64 = (253_402_300_800 - 12 * 3600) * 1_000_000;
    let mut data = [BLACK; NUM_LEDS];
    assert!(dttobcd(&mut data, micros, 16, 10));
    assert_eq!(column_bits(&data, 16, 14, 0), 6);
    assert_eq!(column_bits(&data, 16, 8, 5), 9);
}

#[test]
fn band_below_the_strip_changes_nothing() {
    let mut data = [Pixel { r: 1, g: 2, b: 3 }; NUM_LEDS];
    draw_digits(&mut data, &[9, 9, 9], 16, 200);
    assert!(data.iter().all(|p| *p == Pixel { r: 1, g: 2, b: 3 }));
}

#[test]
fn band_at_largest_offset_changes_nothing() {
    let mut data = [Pixel { r: 1, g: 2, b: 3 }; NUM_LEDS];
    draw_digits(&mut data, &[7], 1, usize::MAX - 3);
    assert!(data.iter().all(|p| *p == Pixel { r: 1, g: 2, b: 3 }));
}
