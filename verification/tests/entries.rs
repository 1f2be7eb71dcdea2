use price_oracle::{AssetPair, Price, PriceEntry, PriceInfo, PRICE_SCALE};
use sp_arithmetic::helpers_128bit::multiply_by_rational_with_rounding;
use sp_arithmetic::{FixedU128, Rounding};

fn entry(price: u128, trade_amount: u128, liquidity_amount: u128) -> PriceEntry {
    PriceEntry { price: Price::from_inner(price), trade_amount, liquidity_amount }
}

#[test]
fn blend_is_weighted_by_trade_volume() {
    let first = entry(2 * PRICE_SCALE, 100, 50);
    let second = entry(4 * PRICE_SCALE, 300, 50);
    let blend = first.calculate_new_price_entry(&second).unwrap();
    // (2.0 * 100 + 4.0 * 300) / 400 = 3.5, not the plain mean 3.0
    assert_eq!(blend.price.inner, 3_500_000_000_000_000_000);
    assert_eq!(blend.trade_amount, 400);
    assert_eq!(blend.liquidity_amount, 100);
}

#[test]
fn blend_does_not_depend_on_which_price_is_higher() {
    let low = entry(2 * PRICE_SCALE, 100, 50);
    let high = entry(4 * PRICE_SCALE, 300, 70);
    let one = low.calculate_new_price_entry(&high).unwrap();
    let other = high.calculate_new_price_entry(&low).unwrap();
    assert_eq!(one, other);
    assert_eq!(one.liquidity_amount, 120);
}

#[test]
fn blend_rounds_down() {
    // (1 * 1 + 2 * 2) / 3 = 1.66..
    let blend = entry(1, 1, 1).calculate_new_price_entry(&entry(2, 2, 1)).unwrap();
    assert_eq!(blend.price.inner, 1);
    // (2 * 1 + 1 * 2) / 3 = 1.33..
    let blend = entry(2, 1, 1).calculate_new_price_entry(&entry(1, 2, 1)).unwrap();
    assert_eq!(blend.price.inner, 1);
    // (10 * 1 + 20 * 3) / 4 = 17.5
    let blend = entry(10, 1, 1).calculate_new_price_entry(&entry(20, 3, 1)).unwrap();
    assert_eq!(blend.price.inner, 17);
}

#[test]
fn blend_of_equal_prices_is_that_price() {
    let blend = entry(7, 1, 1).calculate_new_price_entry(&entry(7, 1, 1)).unwrap();
    assert_eq!(blend.price.inner, 7);
    let blend = entry(u128::MAX, 5, 1).calculate_new_price_entry(&entry(u128::MAX, 9, 1)).unwrap();
    assert_eq!(blend.price.inner, u128::MAX);
}

#[test]
fn blend_needs_more_than_128_bits_in_between() {
    // the product of gap and weight is far beyond 128 bits
    let high = u128::MAX;
    let volume = 1u128 << 100;
    let blend = entry(0, volume, 1).calculate_new_price_entry(&entry(high, volume, 1)).unwrap();
    assert_eq!(blend.price.inner, u128::MAX / 2);
    assert_eq!(blend.trade_amount, 1u128 << 101);

    let blend =
        entry(high, 3 * volume, 1).calculate_new_price_entry(&entry(1, volume, 1)).unwrap();
    // 1 + (MAX - 1) * 3 / 4
    assert_eq!(blend.price.inner, 1 + (high - 1) / 4 * 3 + ((high - 1) % 4) * 3 / 4);
}

#[test]
fn blend_with_the_zero_entry_is_the_trade() {
    let trade = entry(123_456_789, 1, 77);
    assert_eq!(PriceEntry::default().calculate_new_price_entry(&trade), Some(trade));
    let trade = entry(u128::MAX, u128::MAX, u128::MAX);
    assert_eq!(PriceEntry::default().calculate_new_price_entry(&trade), Some(trade));
}

#[test]
fn blend_fails_when_trade_volume_overflows() {
    let full = entry(2 * PRICE_SCALE, u128::MAX, 50);
    assert_eq!(full.calculate_new_price_entry(&entry(PRICE_SCALE, 1, 1)), None);
}

#[test]
fn blend_fails_when_liquidity_overflows() {
    let full = entry(2 * PRICE_SCALE, 10, u128::MAX);
    assert_eq!(full.calculate_new_price_entry(&entry(PRICE_SCALE, 1, 1)), None);
}

#[test]
fn blend_fails_without_any_volume() {
    assert_eq!(entry(5, 0, 1).calculate_new_price_entry(&entry(7, 0, 1)), None);
}

#[test]
fn blend_agrees_with_the_fixed_point_library() {
    let cases: [(u128, u128, u128, u128); 5] = [
        (3, 5, 11, 7),
        (PRICE_SCALE, 1_000_000_000_000, 3 * PRICE_SCALE / 2, 7_000_000_000_000),
        (u128::MAX - 5, 1u128 << 90, 17, (1u128 << 90) + 3),
        (1u128 << 127, 1, (1u128 << 127) + 12345, u128::MAX - 1),
        (999, 1u128 << 64, 1000, 1u128 << 65),
    ];
    for (x, wx, y, wy) in cases {
        let blend = entry(x, wx, 1).calculate_new_price_entry(&entry(y, wy, 1)).unwrap();
        let (low, high, weight) = if x <= y { (x, y, wy) } else { (y, x, wx) };
        let share =
            multiply_by_rational_with_rounding(high - low, weight, wx + wy, Rounding::Down).unwrap();
        assert_eq!(blend.price.inner, low + share);
        assert!(low <= blend.price.inner && blend.price.inner <= high);
    }
}

#[test]
fn entry_reduces_to_price_and_volume() {
    let info = entry(5 * PRICE_SCALE, 42, 9).price_info();
    assert_eq!(info, PriceInfo { avg_price: Price::from_inner(5 * PRICE_SCALE), volume: 42 });
}

#[test]
fn defaults_are_zero() {
    assert_eq!(PriceEntry::default(), entry(0, 0, 0));
    assert_eq!(PriceInfo::default(), PriceInfo { avg_price: Price::from_inner(0), volume: 0 });
    assert!(Price::from_inner(0).is_zero());
    assert!(!Price::from_inner(1).is_zero());
}

#[test]
fn scale_is_one_whole_unit_of_the_fixed_point_library() {
    assert_eq!(FixedU128::from_u32(1).into_inner(), PRICE_SCALE);
}

#[test]
fn pair_id_ignores_direction() {
    let forward = AssetPair::new(1_000, 2_000);
    let backward = AssetPair::new(2_000, 1_000);
    assert_eq!(forward.id(), backward.id());
    assert_eq!(forward.id(), (1_000u64 << 32) | 2_000);
    assert_ne!(forward.id(), AssetPair::new(1_000, 3_000).id());
    assert_ne!(AssetPair::new(0, 1).id(), AssetPair::new(1, 1).id());
    assert_eq!(AssetPair::new(u32::MAX, u32::MAX).id(), u64::MAX);
    assert_eq!(AssetPair::new(0, 0).id(), 0);
}

/// The full 256-bit product of `a` and `b`, as (high, low).
fn wide_product(a: u128, b: u128) -> (u128, u128) {
    let mask = (1u128 << 64) - 1;
    let (a1, a0) = (a >> 64, a & mask);
    let (b1, b0) = (b >> 64, b & mask);
    let low = a0 * b0;
    let mid1 = a1 * b0;
    let mid2 = a0 * b1;
    let high = a1 * b1;
    let (mid, mid_carry) = mid1.overflowing_add(mid2);
    let (low, low_carry) = low.overflowing_add(mid << 64);
    let high = high + (mid >> 64) + ((mid_carry as u128) << 64) + low_carry as u128;
    (high, low)
}

/// The sum of two 256-bit numbers with a carry-out, as (carry, high, low).
fn wide_sum(x: (u128, u128), y: (u128, u128)) -> (u128, u128, u128) {
    let (low, c0) = x.1.overflowing_add(y.1);
    let (high, c1) = x.0.overflowing_add(y.0);
    let (high, c2) = high.overflowing_add(c0 as u128);
    (c1 as u128 + c2 as u128, high, low)
}

#[test]
fn wide_product_is_right_on_known_values() {
    assert_eq!(wide_product(3, 5), (0, 15));
    assert_eq!(wide_product(u128::MAX, u128::MAX), (u128::MAX - 1, 1));
    assert_eq!(wide_product(1u128 << 127, 4), (2, 0));
    assert_eq!(wide_product(u128::MAX, 2), (1, u128::MAX - 1));
}

#[test]
fn blend_is_the_exact_floor_of_the_weighted_mean() {
    let mut seed: u128 = 0x9e37_79b9_7f4a_7c15_f39c_c060_5ced_c834;
    let mut next = move || {
        seed = seed.wrapping_mul(0x2360_ed05_1fc6_5da4_4385_df64_9fcc_f645).wrapping_add(1);
        seed ^ (seed >> 61)
    };
    for round in 0..2_000u32 {
        let shift = round % 127;
        let x = next() >> (next() % 128);
        let y = next() >> (next() % 128);
        let wx = next() >> (1 + shift);
        let wy = (next() >> 1) | 1;
        let total = wx + wy;
        let blend = entry(x, wx, 1).calculate_new_price_entry(&entry(y, wy, 1)).unwrap();
        let mean = blend.price.inner;
        assert_eq!(blend.trade_amount, total);
        // mean * total <= x * wx + y * wy < (mean + 1) * total
        let weighted = wide_sum(wide_product(x, wx), wide_product(y, wy));
        let floor = wide_product(mean, total);
        let above = wide_sum(floor, (0, total));
        assert!((0, floor.0, floor.1) <= weighted, "round {}", round);
        assert!(weighted < above, "round {}", round);
    }
}
