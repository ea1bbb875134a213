use tempsense::filter::{average, sort, sum_samples, trimmed_mean};

#[test]
fn sort_orders_ascending() {
    let mut v: Vec<u16> = vec![9, 2, 7, 2, 0, 4095, 3, 3, 8, 1, 5, 4];
    sort(&mut v);
    assert_eq!(v, vec![0, 1, 2, 2, 3, 3, 4, 5, 7, 8, 9, 4095]);
}

#[test]
fn sort_handles_sorted_and_reversed_input() {
    let mut up: Vec<u16> = (0..12).collect();
    sort(&mut up);
    assert_eq!(up, (0..12).collect::<Vec<u16>>());

    let mut down: Vec<u16> = (0..12).rev().collect();
    sort(&mut down);
    assert_eq!(down, (0..12).collect::<Vec<u16>>());
}

#[test]
fn sum_and_average_exact() {
    let v: Vec<u16> = vec![1, 2, 3, 4, 5, 6, 7, 8];
    assert_eq!(sum_samples(&v), 36);
    // 36 / 8 truncates to 4.
    assert_eq!(average(&v), 4);
}

#[test]
fn trimmed_mean_drops_two_extremes_each_side() {
    // Sorted: [0, 1, 5, 5, 5, 6, 6, 7, 7, 8, 9, 4095];
    // middle eight sum to 49, and 49 >> 3 == 6.
    let batch: Vec<u16> = vec![5, 4095, 0, 7, 6, 5, 8, 9, 5, 6, 7, 1];
    assert_eq!(trimmed_mean(&batch), 6);
}

#[test]
fn trimmed_mean_ignores_arrival_order() {
    let batch: Vec<u16> = vec![5, 4095, 0, 7, 6, 5, 8, 9, 5, 6, 7, 1];
    let shuffled: Vec<u16> = vec![1, 7, 6, 5, 9, 8, 5, 6, 7, 0, 4095, 5];
    assert_eq!(trimmed_mean(&batch), trimmed_mean(&shuffled));
}

#[test]
fn trimmed_mean_of_constant_batch_is_the_constant() {
    let batch: Vec<u16> = vec![620; 12];
    assert_eq!(trimmed_mean(&batch), 620);
}
