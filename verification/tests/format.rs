use fastdel::format::format_bytes;

/// The same text by way of floating point.
fn by_float(bytes: u64) -> String {
    let units = ["B", "KB", "MB", "GB", "TB"];
    let mut size = bytes as f64;
    let mut unit = 0;
    while size >= 1024.0 && unit < units.len() - 1 {
        size /= 1024.0;
        unit += 1;
    }
    if unit == 0 {
        format!("{} {}", bytes, units[unit])
    } else {
        format!("{:.2} {}", size, units[unit])
    }
}

#[test]
fn plain_bytes_have_no_decimals() {
    assert_eq!(format_bytes(0), "0 B");
    assert_eq!(format_bytes(1), "1 B");
    assert_eq!(format_bytes(9), "9 B");
    assert_eq!(format_bytes(10), "10 B");
    assert_eq!(format_bytes(512), "512 B");
    assert_eq!(format_bytes(1023), "1023 B");
}

#[test]
fn each_unit_begins_at_its_power_of_1024() {
    assert_eq!(format_bytes(1024), "1.00 KB");
    assert_eq!(format_bytes(1024 * 1024), "1.00 MB");
    assert_eq!(format_bytes(1024 * 1024 * 1024), "1.00 GB");
    assert_eq!(format_bytes(1024u64.pow(4)), "1.00 TB");
    assert_eq!(format_bytes(1024u64.pow(5)), "1024.00 TB");
}

#[test]
fn two_decimals_are_shown() {
    assert_eq!(format_bytes(1536), "1.50 KB");
    assert_eq!(format_bytes(150), "150 B");
    assert_eq!(format_bytes(1025), "1.00 KB");
    assert_eq!(format_bytes(10 * 1024 + 51), "10.05 KB");
    assert_eq!(format_bytes(3 * 1024 * 1024 * 1024 + 256 * 1024 * 1024), "3.25 GB");
    assert_eq!(format_bytes(123_456_789), "117.74 MB");
}

#[test]
fn just_below_a_unit_rounds_up_within_the_smaller_one() {
    assert_eq!(format_bytes(1024 * 1024 - 1), "1024.00 KB");
    assert_eq!(format_bytes(1024 * 1024 * 1024 - 1), "1024.00 MB");
    assert_eq!(format_bytes(1024u64.pow(4) - 1), "1024.00 GB");
}

#[test]
fn halfway_cases_go_to_the_even_neighbour() {
    // 1.125 KB and 1.375 KB lie exactly between two hundredths
    assert_eq!(format_bytes(1152), "1.12 KB");
    assert_eq!(format_bytes(1408), "1.38 KB");
    assert_eq!(format_bytes(1152), by_float(1152));
    assert_eq!(format_bytes(1408), by_float(1408));
}

#[test]
fn largest_count() {
    assert_eq!(format_bytes(u64::MAX), "16777216.00 TB");
    assert_eq!(format_bytes(u64::MAX), by_float(u64::MAX));
}

#[test]
fn agrees_with_floating_point_on_small_counts() {
    for bytes in 0..300_000u64 {
        assert_eq!(format_bytes(bytes), by_float(bytes), "{}", bytes);
    }
}

#[test]
fn agrees_with_floating_point_around_powers_of_two() {
    for bit in 0..64u32 {
        let power = 1u64 << bit;
        for delta in 0..2100u64 {
            let up = power.saturating_add(delta);
            let down = power.saturating_sub(delta);
            assert_eq!(format_bytes(up), by_float(up), "{}", up);
            assert_eq!(format_bytes(down), by_float(down), "{}", down);
        }
    }
    for delta in 0..5000u64 {
        let bytes = u64::MAX - delta;
        assert_eq!(format_bytes(bytes), by_float(bytes), "{}", bytes);
    }
}

#[test]
fn agrees_with_floating_point_on_scattered_counts() {
    // a fixed pseudo-random walk over the whole range
    let mut x: u64 = 0x9E37_79B9_7F4A_7C15;
    for _ in 0..200_000 {
        x ^= x << 13;
        x ^= x >> 7;
        x ^= x << 17;
        for shift in [0u32, 8, 16, 24, 32, 40, 48] {
            let bytes = x >> shift;
            assert_eq!(format_bytes(bytes), by_float(bytes), "{}", bytes);
        }
    }
}

#[test]
fn agrees_with_floating_point_at_halfway_cases() {
    // counts that lie exactly between two hundredths of their unit
    for unit in 1..=4u32 {
        let size = 1u128 << (10 * unit);
        for hundredth in 100..3000u128 {
            // (hundredth + 1/2) / 100 units, where that is a whole number of bytes
            let scaled = (2 * hundredth + 1) * size;
            if scaled % 200 == 0 {
                let bytes = (scaled / 200) as u64;
                assert_eq!(format_bytes(bytes), by_float(bytes), "{}", bytes);
            }
        }
    }
    // counts beyond 53 bits that lie exactly between two doubles
    for bit in 53..64u32 {
        let step = 1u64 << (bit - 52);
        let base = 1u64 << bit;
        for k in 0..2000u64 {
            let bytes = base + k * step + step / 2;
            assert_eq!(format_bytes(bytes), by_float(bytes), "{}", bytes);
        }
    }
}
