use balancebeam::rate::RateWindow;

#[test]
fn admits_up_to_max_then_rejects() {
    // With a maximum of 3, exactly the first 3 calls in a window are
    // admitted; the call that would exceed the maximum and every later one
    // are rejected, and a reset admits the client again.
    let mut w = RateWindow::new(3);
    let id = String::from("10.0.0.1");
    assert!(w.admit_request(&id));
    assert!(w.admit_request(&id));
    assert!(w.admit_request(&id));
    assert!(!w.admit_request(&id));
    assert!(!w.admit_request(&id));
    w.reset_all();
    assert!(w.admit_request(&id));
}

#[test]
fn zero_max_disables_rate_limiting() {
    let mut w = RateWindow::new(0);
    let id = String::from("10.0.0.1");
    for _ in 0..100 {
        assert!(w.admit_request(&id));
    }
}

#[test]
fn clients_are_counted_separately() {
    let mut w = RateWindow::new(1);
    let a = String::from("10.0.0.1");
    let b = String::from("10.0.0.2");
    assert!(w.admit_request(&a));
    assert!(w.admit_request(&b));
    assert!(!w.admit_request(&a));
    assert!(!w.admit_request(&b));
}

#[test]
fn repeated_client_hits_its_own_count() {
    let mut w = RateWindow::new(2);
    let a = String::from("192.168.0.7");
    let b = String::from("192.168.0.8");
    assert!(w.admit_request(&a));
    assert!(w.admit_request(&a));
    assert!(w.admit_request(&b));
    assert!(!w.admit_request(&a));
    assert!(w.admit_request(&b));
    assert!(!w.admit_request(&b));
}

#[test]
fn reset_clears_every_client() {
    let mut w = RateWindow::new(1);
    let a = String::from("10.0.0.1");
    let b = String::from("10.0.0.2");
    assert!(w.admit_request(&a));
    assert!(w.admit_request(&b));
    w.reset_all();
    assert!(w.admit_request(&a));
    assert!(w.admit_request(&b));
}

#[test]
fn configured_maximum_is_kept() {
    let w = RateWindow::new(5);
    assert_eq!(w.max_requests(), 5);
    let mut w2 = RateWindow::new(2);
    w2.reset_all();
    assert_eq!(w2.max_requests(), 2);
}
