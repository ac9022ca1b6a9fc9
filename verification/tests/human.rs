use strict_du::human_bytes;

#[test]
fn small_counts_have_no_decimal() {
    assert_eq!(human_bytes(0), "0 B");
    assert_eq!(human_bytes(1), "1 B");
    assert_eq!(human_bytes(1023), "1023 B");
}

#[test]
fn crosses_unit_boundaries() {
    assert_eq!(human_bytes(1024), "1.0 KiB");
    assert_eq!(human_bytes(1024 + 512), "1.5 KiB");
    assert_eq!(human_bytes(1024 * 1024), "1.0 MiB");
    assert_eq!(human_bytes(1024 * 1024 * 1024), "1.0 GiB");
}

#[test]
fn caps_at_exbibytes_instead_of_overflowing_the_unit_table() {
    assert_eq!(human_bytes(u64::MAX), "16.0 EiB");
}

/// Agrees with what `format!("{:.1}")` prints for the same value as `f64`,
/// across values that round, carry into the next digit, and lose precision
/// in the conversion to `f64`.
#[test]
fn matches_float_formatting_on_many_values() {
    let units = ["B", "KiB", "MiB", "GiB", "TiB", "PiB", "EiB"];
    let reference = |bytes: u64| -> String {
        if bytes < 1024 {
            return format!("{} B", bytes);
        }
        let mut size = bytes as f64;
        let mut unit = 0;
        while size >= 1024.0 && unit < units.len() - 1 {
            size /= 1024.0;
            unit += 1;
        }
        format!("{:.1} {}", size, units[unit])
    };
    let mut samples: Vec<u64> = vec![
        1024, 1075, 1076, 1280, 1331, 1332, 1536, 1048575, 1048576, 1048524, 1048523,
        (1u64 << 53) - 1, 1u64 << 53, (1u64 << 53) + 1, (1u64 << 53) + 3,
        (1u64 << 60) - 1, 1u64 << 60, u64::MAX - 1024, u64::MAX - 2048, u64::MAX,
    ];
    let mut x: u64 = 0x9E37_79B9_7F4A_7C15;
    for _ in 0..20000 {
        x ^= x << 13;
        x ^= x >> 7;
        x ^= x << 17;
        let shift = (x % 64) as u32;
        samples.push(x >> shift);
    }
    for b in samples {
        assert_eq!(human_bytes(b), reference(b), "bytes = {}", b);
    }
}

fn unit_of(s: &str) -> usize {
    let unit = s.rsplit(' ').next().unwrap();
    ["B", "KiB", "MiB", "GiB", "TiB", "PiB", "EiB"].iter().position(|u| *u == unit).unwrap()
}

#[test]
fn larger_counts_never_get_smaller_units() {
    let mut samples: Vec<u64> = vec![0, 1, 1023, 1024, 1048575, 1048576, (1 << 60) - 1, 1 << 60, u64::MAX];
    let mut x: u64 = 0x2545_F491_4F6C_DD1D;
    for _ in 0..2000 {
        x ^= x << 13;
        x ^= x >> 7;
        x ^= x << 17;
        samples.push(x >> (x % 64));
    }
    samples.sort();
    for w in samples.windows(2) {
        assert!(unit_of(&human_bytes(w[0])) <= unit_of(&human_bytes(w[1])), "{} vs {}", w[0], w[1]);
    }
}

#[test]
fn times_1024_moves_one_unit_up() {
    assert_eq!(human_bytes(5 * 1024), "5.0 KiB");
    assert_eq!(human_bytes(1023 * 1024), "1023.0 KiB");
    assert_eq!(human_bytes(1536 * 1024), "1.5 MiB");
    assert_eq!(human_bytes(1048575 * 1024), "1024.0 MiB");
    for b in [1u64, 7, 1024, 1280, 123_456_789, u64::MAX / 1024] {
        let small = human_bytes(b);
        let big = human_bytes(b * 1024);
        assert_eq!(unit_of(&big), unit_of(&small) + 1, "{}", b);
        let fig_small = small.rsplit_once(' ').unwrap().0;
        let fig_big = big.rsplit_once(' ').unwrap().0;
        if b < 1024 {
            assert_eq!(fig_big, format!("{}.0", fig_small));
        } else {
            assert_eq!(fig_big, fig_small);
        }
    }
}
