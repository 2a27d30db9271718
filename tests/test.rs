use simple_bar::{BarError, ProgressBar};

#[test]
#[should_panic]
fn panic_out_of_bounds() {
    let num_iterations = 500u32;
    let mut bar = ProgressBar::default(num_iterations, 50, false).unwrap();

    for _ in 0..num_iterations {
        bar.update().unwrap();
    }

    bar.update().unwrap();
}

#[test]
fn default_behaviour() {
    let num_iterations = 500;
    let mut bar = ProgressBar::default(num_iterations, 50, false).unwrap();

    for _ in 0..num_iterations {
        assert!(bar.update().is_ok());
    }
    assert!(bar.is_last());
}

#[test]
fn eta_test() {
    let num_iterations = 5000000;
    let mut bar = ProgressBar::default(num_iterations, 50, true).unwrap();

    for _ in 0..num_iterations {
        assert!(bar.update().is_ok());
    }
    assert!(bar.is_last());
    assert_eq!(bar.update(), Err(BarError::OutOfRange));
}
