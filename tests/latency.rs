use loadgen::latency::{
    bucket_index, histogram, latency_total, percentile, sorted_latencies, variance_scaled,
};

#[test]
fn percentile_is_nearest_rank() {
    let v: Vec<u64> = (1..=10).collect();
    assert_eq!(percentile(&v, 50), 6);
    assert_eq!(percentile(&v, 99), 10);
    assert_eq!(percentile(&v, 75), 8);
    assert_eq!(percentile(&v, 90), 10);
    assert_eq!(percentile(&v, 0), 1);
    assert_eq!(percentile(&v, 100), 10);
}

#[test]
fn percentile_of_one_value() {
    assert_eq!(percentile(&vec![7], 99), 7);
}

#[test]
fn population_stdev_example() {
    let v: Vec<u64> = vec![2, 4, 4, 4, 5, 5, 7, 9];
    let n = v.len() as u128;
    assert_eq!(latency_total(&v), 40);
    assert_eq!(latency_total(&v) / n, 5);
    let scaled = variance_scaled(&v).unwrap();
    assert_eq!(scaled, 256);
    assert_eq!(scaled / (n * n), 4);
    assert_eq!(((scaled as f64) / ((n * n) as f64)).sqrt(), 2.0);
}

#[test]
fn variance_of_equal_values_is_zero() {
    assert_eq!(variance_scaled(&vec![3, 3, 3]), Some(0));
    assert_eq!(variance_scaled(&vec![]), Some(0));
}

#[test]
fn variance_overflow_is_reported() {
    let v: Vec<u64> = vec![u64::MAX, u64::MAX, u64::MAX];
    assert_eq!(variance_scaled(&v), None);
}

#[test]
fn histogram_counts_every_latency() {
    let v: Vec<u64> = vec![1, 2, 3, 4, 5, 6, 7, 8, 9, 10, 10, 20];
    let h = histogram(&v);
    assert_eq!(h.len(), 10);
    assert_eq!(h.iter().sum::<usize>(), v.len());
    assert_eq!(h, vec![1, 2, 2, 2, 2, 2, 0, 0, 0, 1]);
}

#[test]
fn histogram_max_falls_in_last_bucket() {
    assert_eq!(bucket_index(50, 50), 9);
    assert_eq!(bucket_index(0, 50), 0);
    assert_eq!(bucket_index(49, 50), 9);
    assert_eq!(bucket_index(44, 50), 8);
    let h = histogram(&vec![100]);
    assert_eq!(h[9], 1);
}

#[test]
fn histogram_of_all_zero_latencies() {
    let h = histogram(&vec![0, 0, 0]);
    assert_eq!(h, vec![0, 0, 0, 0, 0, 0, 0, 0, 0, 3]);
}

#[test]
fn sorting_orders_latencies() {
    let v: Vec<u64> = vec![5, 1, 4, 1, 9];
    assert_eq!(sorted_latencies(&v), vec![1, 1, 4, 5, 9]);
    assert_eq!(v, vec![5, 1, 4, 1, 9]);
}
