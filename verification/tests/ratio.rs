use dropzone::ratio::Ratio;

#[test]
fn a_fraction_without_denominator_has_no_multiples() {
    let broken = Ratio { numer: 3, denom: 0 };
    assert_eq!(broken.times_floor(5), None);
    assert_eq!(broken.times_ceil(5), None);
}

#[test]
fn multiples_round_down_and_up() {
    let five_quarters = Ratio { numer: 5, denom: 4 };
    assert_eq!(five_quarters.times_floor(50), Some(62));
    assert_eq!(five_quarters.times_ceil(50), Some(63));
    assert_eq!(five_quarters.times_floor(4), Some(5));
    assert_eq!(five_quarters.times_ceil(4), Some(5));
    assert_eq!(five_quarters.times_floor(0), Some(0));
    assert_eq!(five_quarters.times_ceil(0), Some(0));
}

#[test]
fn whole_numbers_are_fractions_over_one() {
    assert_eq!(Ratio::whole(7), Ratio { numer: 7, denom: 1 });
    assert_eq!(Ratio::whole(7).times_floor(3), Some(21));
    assert_eq!(Ratio::whole(7).times_ceil(3), Some(21));
}

#[test]
fn the_largest_multiple_fits() {
    let large = Ratio { numer: u16::MAX, denom: 1 };
    assert_eq!(large.times_floor(u32::MAX), Some(65535u64 * 4294967295u64));
    assert_eq!(large.times_ceil(u32::MAX), Some(65535u64 * 4294967295u64));
    let small = Ratio { numer: u16::MAX, denom: u16::MAX };
    assert_eq!(small.times_ceil(u32::MAX), Some(4294967295u64));
}
