use fand::smoothing::window_ticks;

#[test]
fn window_ticks_rounds_up() {
    assert_eq!(window_ticks(12, 2), 6);
    assert_eq!(window_ticks(5, 2), 3);
    assert_eq!(window_ticks(1, 2), 1);
    assert_eq!(window_ticks(0, 2), 1);
}

#[test]
fn window_ticks_exact_and_zero_tick() {
    // A zero tick counts as one second.
    assert_eq!(window_ticks(5, 0), 5);
    assert_eq!(window_ticks(7, 1), 7);
    assert_eq!(window_ticks(7, 7), 1);
    assert_eq!(window_ticks(8, 7), 2);
}
