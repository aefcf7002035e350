use paktool::util::display_size;

const UNIT_NAMES: [&str; 3] = ["KB", "MB", "GB"];

/// The same text by way of floating-point arithmetic and the formatter of
/// the standard library.
fn by_floating_point(bytes: u32) -> String {
    let mut size = bytes as f32 / 1024.0;
    let mut degree = 0;
    while size > 1024.0 {
        size /= 1024.0;
        degree += 1;
    }
    format!("{:.2} {}", size, UNIT_NAMES[degree])
}

fn agree_from(start: u32, stride: u32, count: u32) {
    let mut bytes = start;
    for _ in 0..count {
        assert_eq!(display_size(bytes), by_floating_point(bytes), "for {} bytes", bytes);
        bytes = match bytes.checked_add(stride) {
            Some(next) => next,
            None => return,
        };
    }
}

#[test]
fn display_size_of_small_sizes() {
    assert_eq!(display_size(0), "0.00 KB");
    assert_eq!(display_size(1), "0.00 KB");
    assert_eq!(display_size(5), "0.00 KB");
    assert_eq!(display_size(6), "0.01 KB");
    assert_eq!(display_size(10), "0.01 KB");
    assert_eq!(display_size(512), "0.50 KB");
    assert_eq!(display_size(1023), "1.00 KB");
    assert_eq!(display_size(1024), "1.00 KB");
    assert_eq!(display_size(1536), "1.50 KB");
}

#[test]
fn display_size_rounds_midway_to_even() {
    // 128 bytes are 0.125 KB, midway between 0.12 and 0.13.
    assert_eq!(display_size(128), "0.12 KB");
    // 384 bytes are 0.375 KB, midway between 0.37 and 0.38.
    assert_eq!(display_size(384), "0.38 KB");
    assert_eq!(display_size(128), by_floating_point(128));
    assert_eq!(display_size(384), by_floating_point(384));
}

#[test]
fn display_size_changes_unit_only_above_1024() {
    assert_eq!(display_size(1_048_575), "1024.00 KB");
    assert_eq!(display_size(1_048_576), "1024.00 KB");
    assert_eq!(display_size(1_048_577), "1.00 MB");
    assert_eq!(display_size(1_073_741_824), "1024.00 MB");
    assert_eq!(display_size(1_073_741_824 + 64), "1024.00 MB");
    assert_eq!(display_size(1_073_741_824 + 65), "1.00 GB");
    assert_eq!(display_size(u32::MAX), "4.00 GB");
}

#[test]
fn display_size_keeps_24_significant_bits() {
    // 16_777_217 has 25 significant bits and is taken as 16_777_216.
    assert_eq!(display_size(16_777_217), "16.00 MB");
    for bytes in [16_777_215u32, 16_777_216, 16_777_217, 16_777_218, 16_777_219, 33_554_430,
        33_554_431, 33_554_432, 33_554_434, 33_554_438, 4_294_967_040, 4_294_967_167,
        4_294_967_168, 4_294_967_295]
    {
        assert_eq!(display_size(bytes), by_floating_point(bytes), "for {} bytes", bytes);
    }
}

#[test]
fn display_size_agrees_with_floating_point_below_two_megabytes() {
    agree_from(0, 1, 2_200_000);
}

#[test]
fn display_size_agrees_with_floating_point_across_the_range() {
    agree_from(0, 4099, 1_100_000);
}

#[test]
fn display_size_agrees_with_floating_point_near_the_unit_changes() {
    agree_from(1_048_576 - 5_000, 1, 10_000);
    agree_from(16_777_216 - 5_000, 1, 10_000);
    agree_from(1_073_741_824 - 5_000, 1, 10_000);
    agree_from(u32::MAX - 10_000, 1, 10_001);
}

#[test]
fn display_size_agrees_with_floating_point_where_hundredths_turn() {
    // One hundredth of a megabyte is 10485.76 bytes: walk closely past many
    // places where the second decimal changes.
    let mut turn: u64 = 0;
    while turn < 4_000_000_000 {
        let centre = turn as u32;
        agree_from(centre.saturating_sub(40), 1, 80);
        turn += 52_428_800 + 5_243;
    }
}

#[test]
fn display_size_agrees_with_floating_point_on_scattered_sizes() {
    // A fixed pseudo-random walk over the whole range.
    let mut state: u64 = 0x2545_f491_4f6c_dd1d;
    for _ in 0..1_000_000 {
        state ^= state << 13;
        state ^= state >> 7;
        state ^= state << 17;
        let bytes = (state >> 32) as u32;
        assert_eq!(display_size(bytes), by_floating_point(bytes), "for {} bytes", bytes);
    }
}

#[test]
fn display_size_agrees_with_floating_point_where_precision_halves() {
    // At every power of two from 2^24 on, neighbouring sizes lie twice as
    // far apart once they are taken with 24 significant bits.
    for exponent in 24..32u32 {
        let power = 1u32 << exponent;
        agree_from(power - 2_000, 1, 4_000);
        agree_from(power + (power >> 1) - 1_000, 1, 2_000);
    }
}
