use writekit::Loading;
use writekit::progress::TickAction;

#[test]
fn fresh_estimator_defaults() {
    let l = Loading::new();
    assert_eq!(l.eta_ms, 10_000);
    assert_eq!(l.delay_ms, 100);
    assert_eq!(l.generation, 0);
    assert!(!l.running);
    assert!(!l.clear);
    assert_eq!(l.chars, "``'");
    assert_eq!(l.template, "{wide_bar:.cyan/blue}");
}

#[test]
fn builders_configure_the_display() {
    let l = Loading::new().clear().chars("++-").template("{bar}");
    assert!(l.clear);
    assert_eq!(l.chars, "++-");
    assert_eq!(l.template, "{bar}");
    assert_eq!(l.delay_ms, 100);
}

#[test]
fn start_issues_a_live_ticker() {
    let mut l = Loading::new().clear();
    let t = l.start(5_000);
    assert!(l.running);
    assert_eq!(l.start_ms, 5_000);
    assert_eq!(l.generation, 1);
    assert_eq!(t.generation, 1);
    assert_eq!(t.position, 0);
    assert!(!t.stopped);
    assert_eq!(t.delay_ms, 100);
    assert!(t.clear);
}

#[test]
fn second_start_supersedes_the_first_ticker() {
    let mut l = Loading::new();
    let t1 = l.start(0);
    let t2 = l.start(10);
    assert_ne!(t1.generation, t2.generation);
    assert_eq!(l.generation, t2.generation);
    assert_ne!(l.generation, t1.generation);
    assert!(l.running);
}

#[test]
fn finish_recalibrates_the_delay() {
    let mut l = Loading::new();
    l.start(1_000);
    l.finish(3_550);
    assert_eq!(l.eta_ms, 2_550);
    assert_eq!(l.delay_ms, 26);
    assert!(!l.running);

    l.start(0);
    l.finish(10_049);
    assert_eq!(l.eta_ms, 10_049);
    assert_eq!(l.delay_ms, 100);

    l.start(0);
    l.finish(49);
    assert_eq!(l.eta_ms, 49);
    assert_eq!(l.delay_ms, 0);
}

#[test]
fn finish_without_start_measures_from_zero() {
    let mut l = Loading::new();
    l.finish(500);
    assert_eq!(l.eta_ms, 500);
    assert_eq!(l.delay_ms, 5);
    assert!(!l.running);
}

#[test]
fn ticker_never_exceeds_full() {
    let mut l = Loading::new();
    let mut t = l.start(0);
    let mut steps: u64 = 0;
    loop {
        let a = t.step(false);
        steps += 1;
        assert!(t.position <= 100);
        match a {
            TickAction::Stop { clear } => {
                assert!(!clear);
                break;
            },
            TickAction::Advance { sleep_ms } => assert_eq!(sleep_ms, 100),
        }
    }
    assert_eq!(steps, 100);
    assert_eq!(t.position, 100);
    assert!(t.stopped);
}

#[test]
fn cancellation_stops_the_ticker() {
    let mut l = Loading::new().clear();
    let mut t = l.start(0);
    t.step(false);
    t.step(false);
    let a = t.step(true);
    assert!(matches!(a, TickAction::Stop { clear: true }));
    assert_eq!(t.position, 2);
    assert!(t.stopped);
}

#[test]
fn next_ticker_runs_at_the_recalibrated_delay() {
    let mut l = Loading::new();
    l.start(0);
    l.finish(5_000);
    assert_eq!(l.delay_ms, 50);
    let t = l.start(6_000);
    assert_eq!(t.delay_ms, 50);
    let mut t = t;
    match t.step(false) {
        TickAction::Advance { sleep_ms } => assert_eq!(sleep_ms, 50),
        TickAction::Stop { .. } => panic!("the first tick cannot already stop"),
    }
}
