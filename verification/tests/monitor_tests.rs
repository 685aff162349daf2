use writekit::Monitor;
use writekit::monitor::ChangeEvent;
use writekit::monitor::RawKind;

#[test]
fn burst_collapses_to_one_event() {
    let mut m = Monitor::new(1_000);
    m.accept(0, "doc.md", RawKind::Write);
    m.accept(50, "doc.md", RawKind::Write);
    m.accept(200, "doc.md", RawKind::Write);
    m.accept(700, "doc.md", RawKind::Write);
    m.accept(999, "doc.md", RawKind::Write);
    let out = m.poll(1_000);
    assert_eq!(out.len(), 1);
    match &out[0] {
        ChangeEvent::Modified { path } => assert_eq!(path, "doc.md"),
        _ => panic!("expected a modification event"),
    }
}

#[test]
fn merged_event_carries_latest_kind() {
    let mut m = Monitor::new(1_000);
    m.accept(0, "new.md", RawKind::Create);
    m.accept(10, "new.md", RawKind::Write);
    let out = m.poll(1_000);
    assert_eq!(out.len(), 1);
    assert!(matches!(&out[0], ChangeEvent::Modified { .. }));
}

#[test]
fn window_stays_open_until_deadline() {
    let mut m = Monitor::new(1_000);
    m.accept(0, "doc.md", RawKind::Write);
    assert_eq!(m.poll(999).len(), 0);
    assert_eq!(m.poll(1_000).len(), 1);
    assert_eq!(m.poll(1_000).len(), 0);
}

#[test]
fn distinct_paths_get_distinct_events() {
    let mut m = Monitor::new(1_000);
    m.accept(0, "a.md", RawKind::Write);
    m.accept(1, "b.md", RawKind::Remove);
    let out = m.poll(2_000);
    assert_eq!(out.len(), 2);
    match &out[0] {
        ChangeEvent::Modified { path } => assert_eq!(path, "a.md"),
        _ => panic!("expected a modification event first"),
    }
    match &out[1] {
        ChangeEvent::Removed { path } => assert_eq!(path, "b.md"),
        _ => panic!("expected a removal event second"),
    }
}

#[test]
fn later_burst_opens_a_new_window() {
    let mut m = Monitor::new(1_000);
    m.accept(0, "doc.md", RawKind::Write);
    assert_eq!(m.poll(1_500).len(), 1);
    m.accept(2_000, "doc.md", RawKind::Write);
    m.accept(2_100, "doc.md", RawKind::Write);
    assert_eq!(m.poll(3_000).len(), 1);
}

#[test]
fn created_path_is_registered_before_delivery() {
    let mut m = Monitor::new(1_000).path("root");
    let step = m.on_event(ChangeEvent::Created { path: String::from("root/new.md") });
    assert_eq!(step.register, Some(String::from("root/new.md")));
    assert!(m.watched.iter().any(|w| w == "root/new.md"));
    assert!(matches!(step.event, ChangeEvent::Created { .. }));
}

#[test]
fn modification_registers_nothing() {
    let mut m = Monitor::new(1_000).path("root");
    let watched_before = m.watched.len();
    let step = m.on_event(ChangeEvent::Modified { path: String::from("root/doc.md") });
    assert_eq!(step.register, None);
    assert_eq!(m.watched.len(), watched_before);
    match step.event {
        ChangeEvent::Modified { path } => assert_eq!(path, "root/doc.md"),
        _ => panic!("the event must pass through unchanged"),
    }
}

#[test]
fn registration_is_idempotent() {
    let mut m = Monitor::new(1_000).path("root");
    m.register("root/a.md");
    m.register("root/a.md");
    let n = m.watched.iter().filter(|w| w.as_str() == "root/a.md").count();
    assert_eq!(n, 1);
}

#[test]
fn roots_join_the_watch_set() {
    let m = Monitor::new(1_000).path("notes").path("book");
    assert!(m.watched.iter().any(|w| w == "notes"));
    assert!(m.watched.iter().any(|w| w == "book"));
    assert_eq!(m.paths.len(), 2);
    assert_eq!(m.debounce_ms, 1_000);
}

#[test]
fn error_event_passes_through() {
    let mut m = Monitor::new(1_000);
    let step = m.on_event(ChangeEvent::Error { message: String::from("backend failed") });
    assert_eq!(step.register, None);
    match step.event {
        ChangeEvent::Error { message } => assert_eq!(message, "backend failed"),
        _ => panic!("the error must reach the consumer as an event"),
    }
}

#[test]
fn burst_ending_in_removal_delivers_removal() {
    let mut m = Monitor::new(1_000);
    m.accept(0, "a.md", RawKind::Create);
    m.accept(10, "a.md", RawKind::Write);
    m.accept(20, "a.md", RawKind::Remove);
    let out = m.poll(1_000);
    assert_eq!(out.len(), 1);
    assert!(matches!(&out[0], ChangeEvent::Removed { .. }));
}

#[test]
fn merging_keeps_the_first_deadline() {
    let mut m = Monitor::new(1_000);
    m.accept(0, "a.md", RawKind::Write);
    // A later raw event must not push the window's deadline out.
    m.accept(900, "a.md", RawKind::Write);
    assert_eq!(m.poll(1_000).len(), 1);
}
