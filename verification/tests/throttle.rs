use filehop::throttle::{retry_after_seconds, Admission, Source, Throttle};

fn ip(n: u128) -> Source {
    Source { v6: false, bits: n }
}

#[test]
fn ten_failures_in_the_window_lock_the_source_until_the_first_expires() {
    let mut t = Throttle::new();
    let s = ip(1);
    for i in 0..10 {
        assert_eq!(t.begin(s, 1000 + i), Admission::Admitted);
        t.finish(s, 1000 + i, true);
    }
    // The earliest failure (at 1000) leaves the window at 1900.
    assert_eq!(t.begin(s, 1010), Admission::Limited(890));
    assert_eq!(t.begin(s, 1899), Admission::Limited(1));
    assert_eq!(t.begin(s, 1900), Admission::Admitted);
    // Other sources are counted separately.
    assert_eq!(t.begin(ip(2), 1010), Admission::Admitted);
}

#[test]
fn verifications_in_flight_count_against_the_budget() {
    let mut t = Throttle::new();
    let s = ip(7);
    for i in 0..9 {
        assert_eq!(t.begin(s, 5 + i), Admission::Admitted);
        t.finish(s, 5 + i, true);
    }
    assert_eq!(t.begin(s, 20), Admission::Admitted);
    // Nine failures and one verification in flight reach the budget of ten.
    assert_eq!(t.begin(s, 20), Admission::Limited(885));
    t.finish(s, 20, false);
    assert_eq!(t.begin(s, 20), Admission::Admitted);
}

#[test]
fn at_most_two_verifications_run_at_once_without_a_queue() {
    let mut t = Throttle::new();
    assert_eq!(t.begin(ip(1), 0), Admission::Admitted);
    assert_eq!(t.begin(ip(2), 0), Admission::Admitted);
    assert_eq!(t.verifications(), 2);
    assert_eq!(t.begin(ip(3), 0), Admission::Limited(1));
    t.finish(ip(1), 0, false);
    assert_eq!(t.verifications(), 1);
    assert_eq!(t.begin(ip(3), 0), Admission::Admitted);
}

#[test]
fn successful_logins_do_not_accumulate() {
    let mut t = Throttle::new();
    let s = ip(3);
    for i in 0..50 {
        assert_eq!(t.begin(s, i), Admission::Admitted);
        t.finish(s, i, false);
    }
}

#[test]
fn the_table_refuses_new_sources_when_full_without_evicting() {
    let mut t = Throttle::new();
    for n in 0..4096u128 {
        assert_eq!(t.begin(ip(n), 0), Admission::Admitted);
        t.finish(ip(n), 0, true);
    }
    assert_eq!(t.begin(ip(5000), 10), Admission::Limited(900));
    // A tracked source is still served.
    assert_eq!(t.begin(ip(1), 10), Admission::Admitted);
    t.finish(ip(1), 10, false);
    // Once the failures leave the window, idle sources are forgotten.
    assert_eq!(t.begin(ip(5000), 900), Admission::Admitted);
}

#[test]
fn retry_after_is_at_least_one_second() {
    assert_eq!(retry_after_seconds(-5), 1);
    assert_eq!(retry_after_seconds(0), 1);
    assert_eq!(retry_after_seconds(900), 900);
}
