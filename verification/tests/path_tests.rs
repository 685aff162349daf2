use writekit::errors::DispatchError;
use writekit::paths::extension_of;
use writekit::paths::with_extension;
use writekit::text::str_eq;

#[test]
fn extension_of_markdown() {
    assert_eq!(extension_of("doc.md"), Some(String::from("md")));
}

#[test]
fn extension_of_nested_dirs() {
    assert_eq!(extension_of("notes/book/chapter.adoc"), Some(String::from("adoc")));
}

#[test]
fn extension_takes_last_dot() {
    assert_eq!(extension_of("a/b.tar.gz"), Some(String::from("gz")));
}

#[test]
fn extension_of_hidden_file_is_none() {
    assert_eq!(extension_of(".bashrc"), None);
}

#[test]
fn extension_of_hidden_file_with_ext() {
    assert_eq!(extension_of(".config.toml"), Some(String::from("toml")));
}

#[test]
fn extension_of_plain_name_is_none() {
    assert_eq!(extension_of("Makefile"), None);
    assert_eq!(extension_of(""), None);
}

#[test]
fn extension_ignores_dot_in_directory() {
    assert_eq!(extension_of("a.b/c"), None);
}

#[test]
fn extension_of_trailing_dot_is_empty() {
    assert_eq!(extension_of("foo."), Some(String::from("")));
}

#[test]
fn with_extension_replaces() {
    assert_eq!(with_extension("doc.md", "html"), Ok(String::from("doc.html")));
}

#[test]
fn with_extension_adds_when_missing() {
    assert_eq!(with_extension("dir/notes", "html"), Ok(String::from("dir/notes.html")));
}

#[test]
fn with_extension_replaces_last_component_only() {
    assert_eq!(with_extension("a.b/c.md", "pdf"), Ok(String::from("a.b/c.pdf")));
}

#[test]
fn with_extension_keeps_earlier_dots() {
    assert_eq!(with_extension("a/b.tar.gz", "html"), Ok(String::from("a/b.tar.html")));
}

#[test]
fn with_extension_on_hidden_file_appends() {
    assert_eq!(with_extension(".bashrc", "html"), Ok(String::from(".bashrc.html")));
}

#[test]
fn with_extension_fails_without_name() {
    assert_eq!(with_extension("dir/", "html"), Err(DispatchError::Naming));
    assert_eq!(with_extension("", "html"), Err(DispatchError::Naming));
}

#[test]
fn with_extension_fails_on_dot_components() {
    assert_eq!(with_extension(".", "html"), Err(DispatchError::Naming));
    assert_eq!(with_extension("..", "html"), Err(DispatchError::Naming));
    assert_eq!(with_extension("dir/..", "html"), Err(DispatchError::Naming));
}

#[test]
fn str_eq_matches_equal_strings() {
    assert!(str_eq("abc", "abc"));
    assert!(str_eq("", ""));
    assert!(str_eq("naïve", "naïve"));
}

#[test]
fn str_eq_rejects_different_strings() {
    assert!(!str_eq("abc", "abd"));
    assert!(!str_eq("abc", "ab"));
    assert!(!str_eq("", "a"));
}

#[test]
fn with_extension_after_trailing_dot() {
    assert_eq!(with_extension("foo.", "html"), Ok(String::from("foo.html")));
}
