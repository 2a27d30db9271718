use simple_bar::{BarError, ProgressBar};

fn repeat(c: char, n: usize) -> String {
    std::iter::repeat(c).take(n).collect()
}

#[test]
fn construction_rejects_zero_sizes() {
    assert!(matches!(ProgressBar::default(0, 50, false), Err(BarError::ZeroTotal)));
    assert!(matches!(ProgressBar::cargo_style(10, 0, true), Err(BarError::ZeroWidth)));
    assert!(matches!(
        ProgressBar::new(('<', '>'), 0, 0, '#', '#', '.', false),
        Err(BarError::ZeroTotal)
    ));
    assert!(ProgressBar::new(('<', '>'), 1, 1, '#', '#', '.', false).is_ok());
}

#[test]
fn exactly_total_steps_succeed() {
    let mut bar = ProgressBar::cargo_style(3, 10, false).unwrap();
    for i in 1..=3u32 {
        assert!(bar.update_at(0).is_ok());
        assert_eq!(bar.current(), i);
    }
    assert_eq!(bar.update_at(0), Err(BarError::OutOfRange));
    assert_eq!(bar.current(), 3);
    assert_eq!(bar.update(), Err(BarError::OutOfRange));
}

#[test]
fn percent_rises_to_exactly_one_hundred() {
    let total = 7u32;
    let mut bar = ProgressBar::default(total, 20, false).unwrap();
    assert_eq!(bar.percent(), 0);
    let mut last = 0;
    for i in 1..=total {
        bar.update_at(0).unwrap();
        let p = bar.percent();
        assert!(p >= last);
        assert_eq!(p == 100, i == total);
        last = p;
    }
    assert_eq!(last, 100);
}

#[test]
fn percent_truncates() {
    let mut bar = ProgressBar::default(3, 10, false).unwrap();
    bar.update_at(0).unwrap();
    assert_eq!(bar.percent(), 33);
    bar.update_at(0).unwrap();
    assert_eq!(bar.percent(), 66);
}

#[test]
fn filled_cells_at_first_and_last_step() {
    for &(total, width) in &[(1u32, 1u32), (3, 1), (500, 50), (1000, 7), (7, 1000)] {
        let mut bar = ProgressBar::cargo_style(total, width, false).unwrap();
        bar.update_at(0).unwrap();
        assert!(bar.filled_cells() >= 1);
        for _ in 1..total {
            bar.update_at(0).unwrap();
        }
        assert_eq!(bar.filled_cells(), width);
    }
}

#[test]
fn half_way_scenario() {
    let mut bar = ProgressBar::default(500, 50, false).unwrap();
    let mut frame = String::new();
    for _ in 0..250 {
        frame = bar.update().unwrap();
    }
    assert_eq!(bar.percent(), 50);
    assert_eq!(bar.filled_cells(), 25);
    let expected = format!("\r250 / 500 [{}{}] (50%)", repeat('\u{2588}', 25), repeat(' ', 25));
    assert_eq!(frame, expected);
}

#[test]
fn half_way_scenario_with_head() {
    let mut bar = ProgressBar::cargo_style(500, 50, false).unwrap();
    let mut frame = String::new();
    for _ in 0..250 {
        frame = bar.update_at(0).unwrap();
    }
    let expected = format!("\r250 / 500 [{}>{}] (50%)", repeat('=', 24), repeat(' ', 25));
    assert_eq!(frame, expected);
}

#[test]
fn counter_is_zero_padded() {
    let mut bar = ProgressBar::cargo_style(500, 5, false).unwrap();
    let mut frame = String::new();
    for _ in 0..7 {
        frame = bar.update_at(0).unwrap();
    }
    assert_eq!(frame, "\r007 / 500 [>    ] (1%)");
    for _ in 7..42 {
        frame = bar.update_at(0).unwrap();
    }
    assert_eq!(frame, "\r042 / 500 [>    ] (8%)");
}

#[test]
fn complete_frame_ends_the_line() {
    let mut bar = ProgressBar::cargo_style(2, 4, false).unwrap();
    assert_eq!(bar.update_at(0).unwrap(), "\r1 / 2 [=>  ] (50%)");
    assert_eq!(bar.update_at(0).unwrap(), "\r2 / 2 [====] (100%)\n");
}

#[test]
fn reformat_changes_only_the_glyphs() {
    let mut bar = ProgressBar::cargo_style(4, 4, false).unwrap();
    bar.update_at(0).unwrap();
    bar.reformat(('|', '|'), '#', '@', '.');
    assert_eq!(bar.current(), 1);
    assert_eq!(bar.update_at(0).unwrap(), "\r2 / 4 |#@..| (50%)");
}

#[test]
fn reset_starts_over() {
    let mut bar = ProgressBar::cargo_style(2, 4, false).unwrap();
    bar.update_at(0).unwrap();
    bar.update_at(0).unwrap();
    assert!(bar.is_last());
    bar.reset();
    assert_eq!(bar.current(), 0);
    assert!(!bar.is_last());
    assert_eq!(bar.update_at(0).unwrap(), "\r1 / 2 [=>  ] (50%)");
}

#[test]
fn eta_text_in_frame() {
    let mut bar = ProgressBar::cargo_style(1000, 4, true).unwrap();
    let first = bar.update_at(0).unwrap();
    assert_eq!(first, "\r0001 / 1000 [>   ] (0%) ETA ??:??:?? it/s 1000.00");
    let second = bar.update_at(1000).unwrap();
    assert_eq!(second, "\r0002 / 1000 [>   ] (0%) ETA 00:00:01 it/s 500.50");
    let third = bar.update_at(1500).unwrap();
    assert_eq!(third, "\r0003 / 1000 [>   ] (0%) ETA 00:00:01 it/s 500.50");
}

#[test]
fn eta_beyond_ninety_nine_hours_is_unknown() {
    let mut bar = ProgressBar::cargo_style(4000000000, 4, true).unwrap();
    bar.update_at(0).unwrap();
    let frame = bar.update_at(1000000).unwrap();
    assert!(frame.ends_with(" ETA ??:??:?? it/s 500.00"), "{}", frame);
}

#[test]
fn reset_makes_the_estimator_cold() {
    let mut bar = ProgressBar::cargo_style(1000, 4, true).unwrap();
    bar.update_at(0).unwrap();
    bar.update_at(1000).unwrap();
    bar.reset_at(5000);
    assert_eq!(bar.current(), 0);
    let frame = bar.update_at(5000).unwrap();
    assert_eq!(frame, "\r0001 / 1000 [>   ] (0%) ETA ??:??:?? it/s 1000.00");
}
