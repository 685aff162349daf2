use writekit::Args;
use writekit::errors::DispatchError;
use writekit::errors::SetupError;

#[test]
fn explicit_target_wins() {
    let a = Args::new(
        Some(String::from("notes")),
        Some(String::from("/home/me")),
        true,
        false,
        true,
    )
    .unwrap();
    assert_eq!(a.target, "notes");
    assert!(a.display);
    assert!(!a.verbose);
    assert!(a.quiet);
}

#[test]
fn working_directory_is_the_fallback() {
    let a = Args::new(None, Some(String::from("/home/me")), false, false, false).unwrap();
    assert_eq!(a.target, "/home/me");
}

#[test]
fn no_target_at_all_fails_setup() {
    let r = Args::new(None, None, false, true, false);
    assert_eq!(r.unwrap_err(), SetupError::NoTarget);
}

#[test]
fn describe_prints_the_configuration() {
    let a = Args::new(Some(String::from("doc.md")), None, false, true, false).unwrap();
    assert_eq!(a.describe(), "Arguments: target='doc.md' display=false verbose=true quiet=false");
}

#[test]
fn error_messages_are_stable() {
    assert_eq!(SetupError::NoTarget.message(), "no target and no working directory");
    assert_eq!(DispatchError::Naming.message(), "cannot derive an output file name");
}
