use worldmap::sizes::bytes_to_string;

fn by_floats(bytes: u64) -> String {
    let mut value = bytes as f64;
    for unit in ["B", "KB", "MB", "GB", "TB", "PB", "EB", "ZB", "YB"] {
        if value < 1024.0 {
            return format!("{:.2} {}", value, unit);
        }
        value /= 1024.0;
    }
    format!("{} {}", value, "YB")
}

#[test]
fn small_sizes_are_in_bytes() {
    assert_eq!(bytes_to_string(0), "0.00 B");
    assert_eq!(bytes_to_string(1), "1.00 B");
    assert_eq!(bytes_to_string(999), "999.00 B");
    assert_eq!(bytes_to_string(1023), "1023.00 B");
}

#[test]
fn sizes_are_written_in_the_largest_unit() {
    assert_eq!(bytes_to_string(1024), "1.00 KB");
    assert_eq!(bytes_to_string(1536), "1.50 KB");
    assert_eq!(bytes_to_string(1_048_576), "1.00 MB");
    assert_eq!(bytes_to_string(5_242_880), "5.00 MB");
    assert_eq!(bytes_to_string(1_073_741_824), "1.00 GB");
    assert_eq!(bytes_to_string(1_099_511_627_776), "1.00 TB");
    assert_eq!(bytes_to_string(1_125_899_906_842_624), "1.00 PB");
    assert_eq!(bytes_to_string(1_152_921_504_606_846_976), "1.00 EB");
    assert_eq!(bytes_to_string(u64::MAX), "16.00 EB");
}

#[test]
fn sizes_are_rounded_to_two_decimals() {
    assert_eq!(bytes_to_string(1025), "1.00 KB");
    assert_eq!(bytes_to_string(1029), "1.00 KB");
    assert_eq!(bytes_to_string(1030), "1.01 KB");
    assert_eq!(bytes_to_string(123_456_789), "117.74 MB");
    assert_eq!(bytes_to_string(1_048_575), "1024.00 KB");
    assert_eq!(bytes_to_string(1_048_570), "1023.99 KB");
}

#[test]
fn halves_are_rounded_to_the_even_digit() {
    assert_eq!(bytes_to_string(1152), "1.12 KB");
    assert_eq!(bytes_to_string(1408), "1.38 KB");
    assert_eq!(bytes_to_string(1152), by_floats(1152));
    assert_eq!(bytes_to_string(1408), by_floats(1408));
    assert_eq!(bytes_to_string(1024 + 128 + 256), by_floats(1024 + 128 + 256));
}

#[test]
fn sizes_agree_with_floating_point() {
    let mut n: u64 = 1;
    let mut seen = 0;
    while seen < 4000 {
        for d in [0u64, 1, 2, 127, 128, 129, 511, 512, 513] {
            let v = n.wrapping_add(d);
            assert_eq!(bytes_to_string(v), by_floats(v), "for {}", v);
            let w = n.wrapping_sub(d);
            assert_eq!(bytes_to_string(w), by_floats(w), "for {}", w);
        }
        n = n.wrapping_mul(6_364_136_223_846_793_005).wrapping_add(1_442_695_040_888_963_407);
        seen += 1;
    }
    for shift in 0..64 {
        for d in [0u64, 1, 2, 3] {
            let v = (1u64 << shift).wrapping_sub(d);
            assert_eq!(bytes_to_string(v), by_floats(v), "for {}", v);
            let w = (1u64 << shift).wrapping_add(d);
            assert_eq!(bytes_to_string(w), by_floats(w), "for {}", w);
            let x = (1u64 << shift) / 1000 * 1125 + d;
            assert_eq!(bytes_to_string(x), by_floats(x), "for {}", x);
        }
    }
    for v in 0..20_000u64 {
        assert_eq!(bytes_to_string(v), by_floats(v), "for {}", v);
    }
}

#[test]
fn sizes_beyond_53_binary_digits_are_rounded_first() {
    for v in [
        (1u64 << 53) + 1,
        (1u64 << 53) + 2,
        (1u64 << 53) + 3,
        (1u64 << 60) + (1 << 7),
        (1u64 << 60) + (1 << 7) + 1,
        (1u64 << 63) + (1 << 10),
        (1u64 << 63) + (3 << 10),
        u64::MAX - 1023,
        u64::MAX - 1024,
        u64::MAX - 2048,
    ] {
        assert_eq!(bytes_to_string(v), by_floats(v), "for {}", v);
    }
}
