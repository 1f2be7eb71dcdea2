use price_oracle::{BucketQueue, Price, PriceInfo, BUCKET_SIZE};

fn info(price: u128, volume: u128) -> PriceInfo {
    PriceInfo { avg_price: Price::from_inner(price), volume }
}

fn contents(queue: &BucketQueue) -> Vec<PriceInfo> {
    let mut all = Vec::new();
    let mut i = 0;
    while let Some(item) = queue.get(i) {
        all.push(item);
        i += 1;
    }
    all
}

#[test]
fn window_holds_ten() {
    assert_eq!(BUCKET_SIZE, 10);
}

#[test]
fn empty_window_has_zero_last_and_zero_average() {
    let queue = BucketQueue::new();
    assert_eq!(queue.len(), 0);
    assert_eq!(queue.get(0), None);
    assert_eq!(queue.get_last(), info(0, 0));
    assert_eq!(queue.calculate_average(), info(0, 0));
    assert_eq!(BucketQueue::default().len(), 0);
}

#[test]
fn window_grows_up_to_its_capacity() {
    let mut queue = BucketQueue::new();
    for i in 1..=10u128 {
        queue.update_last(info(i, 10 * i));
        assert_eq!(queue.len(), i as usize);
        assert_eq!(queue.get_last(), info(i, 10 * i));
    }
    let expected: Vec<PriceInfo> = (1..=10u128).map(|i| info(i, 10 * i)).collect();
    assert_eq!(contents(&queue), expected);
}

#[test]
fn full_window_evicts_the_oldest() {
    let mut queue = BucketQueue::new();
    for i in 1..=25u128 {
        queue.update_last(info(i, 100 + i));
        assert!(queue.len() <= 10);
    }
    assert_eq!(queue.len(), 10);
    let expected: Vec<PriceInfo> = (16..=25u128).map(|i| info(i, 100 + i)).collect();
    assert_eq!(contents(&queue), expected);
    assert_eq!(queue.get_last(), info(25, 125));
    assert_eq!(queue.get(10), None);
}

#[test]
fn eleventh_push_drops_the_first() {
    let mut queue = BucketQueue::new();
    for i in 0..11u128 {
        queue.update_last(info(i, i));
    }
    assert_eq!(queue.get(0), Some(info(1, 1)));
    assert_eq!(queue.get(9), Some(info(10, 10)));
}

#[test]
fn average_is_over_what_is_held() {
    let mut queue = BucketQueue::new();
    queue.update_last(info(10, 100));
    assert_eq!(queue.calculate_average(), info(10, 100));
    queue.update_last(info(20, 300));
    assert_eq!(queue.calculate_average(), info(15, 200));
    queue.update_last(info(31, 1));
    // 61 / 3 and 401 / 3, rounded down
    assert_eq!(queue.calculate_average(), info(20, 133));
}

#[test]
fn average_of_a_full_window() {
    let mut queue = BucketQueue::new();
    for i in 1..=10u128 {
        queue.update_last(info(i * 1_000, i));
    }
    // 55_000 / 10 and 55 / 10
    assert_eq!(queue.calculate_average(), info(5_500, 5));
    queue.update_last(info(11_000, 11));
    // the window is now 2_000 ..= 11_000: 65_000 / 10 and 65 / 10
    assert_eq!(queue.calculate_average(), info(6_500, 6));
}

#[test]
fn average_is_exact_where_the_sum_exceeds_128_bits() {
    let mut queue = BucketQueue::new();
    for _ in 0..10 {
        queue.update_last(info(u128::MAX, u128::MAX));
    }
    assert_eq!(queue.calculate_average(), info(u128::MAX, u128::MAX));

    let mut queue = BucketQueue::new();
    queue.update_last(info(u128::MAX, u128::MAX - 1));
    queue.update_last(info(u128::MAX - 2, u128::MAX));
    queue.update_last(info(u128::MAX - 1, 0));
    // (3 * MAX - 3) / 3 and (2 * MAX - 1) / 3, where MAX is a multiple of 3
    assert_eq!(
        queue.calculate_average(),
        info(u128::MAX - 1, u128::MAX / 3 * 2 - 1)
    );
}

#[test]
fn average_collects_the_remainders() {
    let mut queue = BucketQueue::new();
    for _ in 0..7 {
        queue.update_last(info(6, 13));
    }
    // every 6 / 7 is zero, the seven remainders make up 42 / 7
    assert_eq!(queue.calculate_average(), info(6, 13));
    queue.update_last(info(0, 0));
    // 42 / 8 and 91 / 8
    assert_eq!(queue.calculate_average(), info(5, 11));
}
