use partape::interpreter::{next_ptr, prev_ptr, sleep_millis, MEMORY_SIZE};
use partape::text::{fmt_i64, fmt_u64, fmt_usize, push_digits};

#[test]
fn numerals_of_small_numbers() {
    assert_eq!(fmt_u64(0), "0");
    assert_eq!(fmt_u64(7), "7");
    assert_eq!(fmt_u64(10), "10");
    assert_eq!(fmt_u64(99), "99");
    assert_eq!(fmt_u64(100), "100");
    assert_eq!(fmt_usize(30000), "30000");
    assert_eq!(fmt_usize(1234567890), "1234567890");
}

#[test]
fn numerals_of_the_largest_numbers() {
    assert_eq!(fmt_u64(u64::MAX), "18446744073709551615");
    assert_eq!(fmt_i64(i64::MAX), "9223372036854775807");
    assert_eq!(fmt_i64(i64::MIN), "-9223372036854775808");
}

#[test]
fn numerals_carry_the_sign() {
    assert_eq!(fmt_i64(0), "0");
    assert_eq!(fmt_i64(-1), "-1");
    assert_eq!(fmt_i64(-10), "-10");
    assert_eq!(fmt_i64(64), "64");
}

#[test]
fn numerals_agree_with_the_standard_library() {
    let mut n: u64 = 1;
    for _ in 0..40 {
        assert_eq!(fmt_u64(n), format!("{}", n));
        assert_eq!(fmt_i64(-((n % 1_000_000_007) as i64)), format!("{}", -((n % 1_000_000_007) as i64)));
        n = n.wrapping_mul(2862933555777941757).wrapping_add(3037000493);
    }
}

#[test]
fn push_digits_appends() {
    let mut text = String::from("x=");
    push_digits(&mut text, 42);
    push_digits(&mut text, 0);
    assert_eq!(text, "x=420");
}

#[test]
fn pointer_wraps_at_both_ends() {
    assert_eq!(next_ptr(0), 1);
    assert_eq!(next_ptr(MEMORY_SIZE - 1), 0);
    assert_eq!(prev_ptr(1), 0);
    assert_eq!(prev_ptr(0), MEMORY_SIZE - 1);
    assert_eq!(prev_ptr(0), 29999);
    for p in [0usize, 1, 17, 29998, 29999] {
        assert_eq!(prev_ptr(next_ptr(p)), p);
        assert_eq!(next_ptr(prev_ptr(p)), p);
    }
}

#[test]
fn a_tick_is_a_tenth_of_a_second() {
    assert_eq!(sleep_millis(0), 0);
    assert_eq!(sleep_millis(1), 100);
    assert_eq!(sleep_millis(25), 2500);
}
