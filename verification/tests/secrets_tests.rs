use unlock_sweep::secrets::{
    base_from_identifier, continuation_base, generate_secret_keys, secret_key_at, SECRET_PERIOD,
    SECRET_SPACE, SECRET_STRIDE,
};

#[test]
fn three_secrets_from_zero() {
    assert_eq!(generate_secret_keys(0, 3), vec![0, 1000, 2000]);
}

#[test]
fn yields_exactly_count_values() {
    assert_eq!(generate_secret_keys(5, 0), Vec::<u64>::new());
    assert_eq!(generate_secret_keys(5, 1), vec![5]);
    assert_eq!(generate_secret_keys(864297030123456, 100_000).len(), 100_000);
}

#[test]
fn values_stay_in_the_secret_space() {
    let keys = generate_secret_keys(u64::MAX, 1000);
    assert!(keys.iter().all(|&k| k < SECRET_SPACE));
    assert_eq!(keys[0], u64::MAX % SECRET_SPACE);
}

#[test]
fn stride_wraps_at_the_end_of_the_space() {
    assert_eq!(
        generate_secret_keys(SECRET_SPACE - 500, 3),
        vec![SECRET_SPACE - 500, 500, 1500]
    );
    assert_eq!(generate_secret_keys(SECRET_SPACE, 2), vec![0, 1000]);
}

#[test]
fn each_value_is_the_stride_after_the_one_before() {
    let keys = generate_secret_keys(9_999_999_999_990_123, 50);
    for pair in keys.windows(2) {
        assert_eq!(pair[1], (pair[0] + SECRET_STRIDE) % SECRET_SPACE);
    }
}

#[test]
fn position_by_position() {
    let keys = generate_secret_keys(864297030123456, 64);
    for (i, &key) in keys.iter().enumerate() {
        assert_eq!(secret_key_at(864297030123456, i), key);
    }
    assert_eq!(secret_key_at(5, 4294967295), 4294967295005);
}

#[test]
fn far_positions_do_not_overflow() {
    if usize::BITS == 64 {
        assert_eq!(secret_key_at(5, usize::MAX), 4073709551615005);
        assert_eq!(secret_key_at(u64::MAX, usize::MAX), 817783261166615);
    }
}

#[test]
fn the_progression_returns_after_one_period() {
    if usize::BITS == 64 {
        let period = SECRET_PERIOD as usize;
        assert_eq!(secret_key_at(123, period), 123);
        assert_eq!(secret_key_at(123, period - 1), SECRET_SPACE - 1000 + 123);
    }
    assert_eq!(SECRET_PERIOD * SECRET_STRIDE, SECRET_SPACE);
}

#[test]
fn continuation_goes_on_without_gap_or_overlap() {
    let base = 9_999_999_999_997_000;
    let first = generate_secret_keys(base, 5);
    let next = continuation_base(base, 5);
    assert_eq!(next, 2000);
    let second = generate_secret_keys(next, 4);
    let mut both = first.clone();
    both.extend(second.iter().copied());
    assert_eq!(both, generate_secret_keys(base, 9));
    assert!(first.iter().all(|k| !second.contains(k)));
}

#[test]
fn continuation_of_an_empty_run_is_the_base_reduced() {
    assert_eq!(continuation_base(42, 0), 42);
    assert_eq!(continuation_base(SECRET_SPACE + 42, 0), 42);
    assert_eq!(continuation_base(0, 3), 3000);
}

#[test]
fn base_is_the_identifier_read_as_a_number() {
    assert_eq!(base_from_identifier("864297030123456"), Some(864297030123456));
    assert_eq!(base_from_identifier("0"), Some(0));
    assert_eq!(base_from_identifier("--"), None);
    assert_eq!(base_from_identifier(""), None);
    assert_eq!(base_from_identifier("86429703012345X"), None);
    assert_eq!(base_from_identifier("99999999999999999999"), None);
}
