use trash_core::size::{print_size, rounded_quotient};

/// The same rendering by floating point arithmetic.
fn by_floats(bytes: u64) -> String {
    const SUFFIXES: [&str; 5] = ["B", "K", "M", "G", "T"];
    let mut value = bytes as f64;
    let mut idx = 0usize;
    while value >= 1024.0 && idx < SUFFIXES.len() - 1 {
        value /= 1024.0;
        idx += 1;
    }
    if idx == 0 {
        format!("{:.0} {}", value, SUFFIXES[idx])
    } else {
        format!("{:.1} {}", value, SUFFIXES[idx])
    }
}

#[test]
fn sizes_in_words() {
    assert_eq!(print_size(0), "0 B");
    assert_eq!(print_size(1), "1 B");
    assert_eq!(print_size(1023), "1023 B");
    assert_eq!(print_size(1024), "1.0 K");
    assert_eq!(print_size(1536), "1.5 K");
    assert_eq!(print_size(1048576), "1.0 M");
    assert_eq!(print_size(1073741824), "1.0 G");
    assert_eq!(print_size(1099511627776), "1.0 T");
    assert_eq!(print_size(1125899906842624), "1024.0 T");
    assert_eq!(print_size(u64::MAX), "16777216.0 T");
}

#[test]
fn ties_go_to_the_even_tenth() {
    assert_eq!(print_size(1280), "1.2 K");
    assert_eq!(print_size(1792), "1.8 K");
    assert_eq!(print_size(1075), "1.0 K");
    assert_eq!(print_size(1076), "1.1 K");
    assert_eq!(print_size(1048552), "1024.0 K");
}

#[test]
fn rounding_of_quotients() {
    assert_eq!(rounded_quotient(0, 7), 0);
    assert_eq!(rounded_quotient(7, 2), 4);
    assert_eq!(rounded_quotient(5, 2), 2);
    assert_eq!(rounded_quotient(10, 4), 2);
    assert_eq!(rounded_quotient(14, 4), 4);
    assert_eq!(rounded_quotient(11, 4), 3);
    assert_eq!(rounded_quotient(9, 4), 2);
    assert_eq!(rounded_quotient(9, 1), 9);
}

#[test]
fn small_sizes_agree_with_floats() {
    for bytes in 0..200_000u64 {
        assert_eq!(print_size(bytes), by_floats(bytes), "{}", bytes);
    }
}

#[test]
fn sizes_around_powers_of_two_agree_with_floats() {
    for bit in 0..64u32 {
        let power = 1u64 << bit;
        for delta in 0..300u64 {
            for bytes in [power.wrapping_add(delta), power.wrapping_sub(delta)] {
                assert_eq!(print_size(bytes), by_floats(bytes), "{}", bytes);
            }
            let bytes = (power - 1) / 3 * 2 + delta;
            assert_eq!(print_size(bytes), by_floats(bytes), "{}", bytes);
        }
    }
}

#[test]
fn ties_in_every_unit_agree_with_floats() {
    // A size is a tie of tenths where twenty times it is an odd multiple of the unit.
    for unit in [1u64 << 10, 1 << 20, 1 << 30, 1 << 40] {
        for odd in (1..4000u64).step_by(2) {
            let base = unit / 4 * odd / 5;
            for bytes in [base.saturating_sub(1), base, base + 1] {
                assert_eq!(print_size(bytes), by_floats(bytes), "{}", bytes);
            }
        }
    }
}

#[test]
fn scattered_sizes_agree_with_floats() {
    let mut state: u64 = 0x9E37_79B9_7F4A_7C15;
    for round in 0..200_000u32 {
        state = state.wrapping_mul(6364136223846793005).wrapping_add(1442695040888963407);
        let bytes = state >> (round % 64);
        assert_eq!(print_size(bytes), by_floats(bytes), "{}", bytes);
    }
}

#[test]
fn sizes_beyond_53_bits_agree_with_floats() {
    let start: u64 = 1 << 53;
    for step in 0..5000u64 {
        for bytes in [start + step, start * 2 + step, start * 4 + step * 3, u64::MAX - step, (1u64 << 63) + step * 1023] {
            assert_eq!(print_size(bytes), by_floats(bytes), "{}", bytes);
        }
    }
    // Ties of tenths of the largest unit, and the sizes next to them.
    for odd in (1..2000u64).step_by(2) {
        let tie = (9_000_000 + odd) * ((1u64 << 40) / 20 + 1);
        for delta in 0..40u64 {
            let bytes = tie - 20 + delta;
            assert_eq!(print_size(bytes), by_floats(bytes), "{}", bytes);
        }
    }
}
