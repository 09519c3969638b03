use cliguard::security::{
    escape_markdown, has_traversal, is_system_path, safe_description, MAX_DESCRIPTION_LENGTH,
};

#[test]
fn escapes_pipes() {
    assert_eq!(escape_markdown("a|b|c"), "a\\|b\\|c");
}

#[test]
fn escapes_newlines() {
    assert_eq!(escape_markdown("line1\nline2"), "line1 line2");
}

#[test]
fn escapes_backticks() {
    assert_eq!(escape_markdown("foo`bar"), "foo'bar");
}

#[test]
fn truncates_long_descriptions() {
    let long = "a".repeat(600);
    let result = safe_description(&long, MAX_DESCRIPTION_LENGTH);
    assert!(result.len() <= MAX_DESCRIPTION_LENGTH);
    assert!(result.ends_with("..."));
}

#[test]
fn escapes_carriage_returns() {
    assert_eq!(escape_markdown("a\r\nb"), "a b");
}

#[test]
fn short_description_unchanged() {
    assert_eq!(safe_description("fits", 10), "fits");
}

#[test]
fn truncation_exact_text() {
    assert_eq!(safe_description("abcdefghij", 8), "abcde...");
}

#[test]
fn truncation_respects_char_boundaries() {
    let s = "éééééé";
    let r = safe_description(s, 7);
    assert!(r.len() <= 7);
    assert_eq!(r, "éé...");
}

#[test]
fn blocks_system_directories() {
    assert!(is_system_path("/etc/passwd"));
    assert!(is_system_path("/dev/null"));
    assert!(is_system_path("/boot"));
    assert!(!is_system_path("/home/user/out.md"));
    assert!(!is_system_path("etc/passwd"));
}

#[test]
fn detects_traversal() {
    assert!(has_traversal("../etc/passwd"));
    assert!(has_traversal("a/../b"));
    assert!(!has_traversal("a/b.md"));
}

#[test]
fn truncated_text_stays_markdown_safe() {
    let r = safe_description("a|b`c\nd|e|f|g|h", 9);
    assert_eq!(r, "a\\|b'c...");
    assert!(!r.contains('`'));
    assert!(!r.contains('\n'));
}

fn system_path(name: &str) -> std::path::PathBuf {
    std::path::Path::new(std::path::MAIN_SEPARATOR_STR).join(name)
}

#[test]
fn rejects_traversal_paths() {
    let path = std::path::PathBuf::from("..").join("..").join("etc").join("passwd");
    assert!(has_traversal(&path.to_string_lossy()));
}

#[test]
fn rejects_system_etc_paths() {
    let path = system_path("etc").join("shadow");
    assert!(is_system_path(&path.to_string_lossy()));
}

#[test]
fn rejects_system_dev_paths() {
    let path = system_path("dev").join("null");
    assert!(is_system_path(&path.to_string_lossy()));
}
