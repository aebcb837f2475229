use skillcheck::paths::{dir_segment, resolve_skill_path};
use skillcheck::text::join_with;
use skillcheck::errors::format_errors;

#[test]
fn test_resolve_skill_path_directory() {
    let resolved = resolve_skill_path("/path/to/skill");
    assert_eq!(resolved, "/path/to/skill");
}

#[test]
fn test_resolve_skill_path_uppercase_skill_md() {
    let resolved = resolve_skill_path("/path/to/skill/SKILL.md");
    assert_eq!(resolved, "/path/to/skill");
}

#[test]
fn test_resolve_skill_path_lowercase_skill_md() {
    let resolved = resolve_skill_path("/path/to/skill/skill.md");
    assert_eq!(resolved, "/path/to/skill");
}

#[test]
fn test_resolve_skill_path_bare_manifest() {
    assert_eq!(resolve_skill_path("SKILL.md"), "");
    assert_eq!(resolve_skill_path("/SKILL.md"), "/");
}

#[test]
fn test_dir_segment_plain() {
    assert_eq!(dir_segment("/a/b/my-skill"), "my-skill");
    assert_eq!(dir_segment("my-skill"), "my-skill");
    assert_eq!(dir_segment("/a/b/my-skill/"), "my-skill");
    assert_eq!(dir_segment("/"), "");
}

#[test]
fn test_join_with_separator() {
    let parts = vec!["a".to_string(), "b".to_string(), "c".to_string()];
    assert_eq!(join_with(&parts, ", "), "a, b, c");
    assert_eq!(join_with(&vec!["solo".to_string()], ", "), "solo");
    assert_eq!(join_with(&Vec::new(), ", "), "");
}

#[test]
fn test_format_errors_joins_with_semicolons() {
    let errors = vec!["first problem".to_string(), "second problem".to_string()];
    assert_eq!(format_errors(&errors), "first problem; second problem");
}
