use tempsense::buffer::MovingAverageBuffer;

#[test]
fn fresh_buffer_is_all_zeros() {
    let buf = MovingAverageBuffer::new(8);
    assert_eq!(buf.capacity(), 8);
    for i in 0..8 {
        assert_eq!(buf.get(i), 0);
    }
    assert_eq!(buf.sum(), 0);
    assert_eq!(buf.average(), 0);
}

#[test]
fn fifo_keeps_last_capacity_values_in_push_order() {
    // Five pushes into a three-slot buffer leave the last three, in
    // push order.
    let mut buf = MovingAverageBuffer::new(3);
    for v in [10u16, 20, 30, 40, 50] {
        buf = buf.push(v);
    }
    assert_eq!(buf.get(0), 30);
    assert_eq!(buf.get(1), 40);
    assert_eq!(buf.get(2), 50);
}

#[test]
fn cold_buffer_unpopulated_slots_contribute_zero() {
    // Two pushes into a five-slot buffer: the three unpopulated slots
    // stay zero, so the sum is just the pushed values and the average
    // is biased low.
    let mut buf = MovingAverageBuffer::new(5);
    buf = buf.push(100);
    buf = buf.push(100);
    assert_eq!(buf.get(0), 0);
    assert_eq!(buf.get(1), 0);
    assert_eq!(buf.get(2), 0);
    assert_eq!(buf.get(3), 100);
    assert_eq!(buf.get(4), 100);
    assert_eq!(buf.sum(), 200);
    assert_eq!(buf.average(), 40);
}

#[test]
fn average_truncates_toward_zero() {
    let mut buf = MovingAverageBuffer::new(8);
    for _ in 0..8 {
        buf = buf.push(5);
    }
    // 40 / 8 is exact...
    assert_eq!(buf.average(), 5);
    buf = buf.push(6);
    // ...and 41 / 8 truncates to 5.
    assert_eq!(buf.sum(), 41);
    assert_eq!(buf.average(), 5);
}
