use simple_bar::Eta;

#[test]
fn zero_elapsed_sample_stays_finite() {
    let mut e = Eta::new(100, 5);
    assert_eq!(e.get_eta(3, 5), None);
    assert_eq!(e.samples(), 1);
    assert_eq!(e.rate(), 300000);
}

#[test]
fn clock_going_back_counts_as_no_time() {
    let mut e = Eta::new(100, 5000);
    assert_eq!(e.get_eta(2, 10), None);
    assert_eq!(e.rate(), 200000);
}

#[test]
fn samples_at_most_once_a_second() {
    let mut e = Eta::new(100, 0);
    e.get_eta(1, 0);
    assert_eq!(e.samples(), 1);
    e.get_eta(5, 999);
    assert_eq!(e.samples(), 1);
    e.get_eta(11, 1000);
    assert_eq!(e.samples(), 2);
    // 100000 and 1000 hundredths of a step per second: mean 50500.
    assert_eq!(e.rate(), 50500);
    // 89 steps to go at 505 steps per second.
    assert_eq!(e.get_eta(11, 1500), Some(89 * 100000 / 50500));
}

#[test]
fn window_warms_up_then_drops_the_oldest() {
    let mut e = Eta::new(1000, 0);
    e.get_eta(1, 0);
    assert_eq!(e.samples(), 1);
    for k in 2..=10u32 {
        e.get_eta(k, (k as u64 - 1) * 1000);
        assert_eq!(e.samples(), k as usize);
    }
    assert_eq!(e.rate(), (100000 + 9 * 100) / 10);
    e.get_eta(11, 10000);
    assert_eq!(e.samples(), 10);
    assert_eq!(e.rate(), 100);
    assert_eq!(e.last_eta(), Some(989 * 100000 / 100));
}

#[test]
fn zero_progress_gives_unknown_estimate() {
    let mut e = Eta::new(10, 0);
    e.get_eta(0, 0);
    e.get_eta(0, 2000);
    assert_eq!(e.rate(), 0);
    assert_eq!(e.last_eta(), None);
}
