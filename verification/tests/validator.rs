use std::cell::RefCell;
use std::collections::HashMap;

use skillcheck::errors::SkillError;
use skillcheck::fs::FileSystem;
use skillcheck::validator::{
    validate_compatibility, validate_description, validate_name, validate_skill,
};

struct MemFS {
    files: RefCell<HashMap<String, String>>,
}

impl MemFS {
    fn new() -> Self {
        MemFS { files: RefCell::new(HashMap::new()) }
    }

    fn insert(&self, path: &str, content: &str) {
        self.files.borrow_mut().insert(path.to_string(), content.to_string());
    }
}

impl FileSystem for MemFS {
    fn path_exists(&self, path: &str) -> bool {
        self.files.borrow().contains_key(path)
    }

    fn read_to_string(&self, path: &str) -> Result<String, String> {
        self.files.borrow().get(path).cloned().ok_or_else(|| "file not found".to_string())
    }

    fn write(&self, path: &str, contents: &str) -> Result<(), String> {
        self.files.borrow_mut().insert(path.to_string(), contents.to_string());
        Ok(())
    }
}

/// A capability whose reads always fail, to surface the IO error kind.
struct BrokenFS;

impl FileSystem for BrokenFS {
    fn path_exists(&self, _path: &str) -> bool {
        true
    }

    fn read_to_string(&self, _path: &str) -> Result<String, String> {
        Err("disk unreadable".to_string())
    }

    fn write(&self, _path: &str, _contents: &str) -> Result<(), String> {
        Err("disk unwritable".to_string())
    }
}

fn validation_messages(result: Result<skillcheck::models::SkillProperties, SkillError>) -> Vec<String> {
    match result {
        Err(SkillError::Validation(msgs)) => msgs,
        other => panic!("expected a validation failure, got {:?}", other.is_ok()),
    }
}

#[test]
fn test_validate_name_valid() {
    let result = validate_name("my-skill", "/my-skill");
    assert!(result.is_ok());
}

#[test]
fn test_validate_name_empty() {
    let result = validate_name("", "/skill");
    assert!(result.is_err());
}

#[test]
fn test_validate_name_whitespace_only() {
    let result = validate_name("   ", "/skill");
    assert!(result.is_err());
}

#[test]
fn test_validate_name_too_long() {
    let long_name = "a".repeat(65);
    let result = validate_name(&long_name, "/skill");
    assert!(result.is_err());
}

#[test]
fn test_validate_name_at_max_length() {
    let name = "a".repeat(64);
    let path_str = format!("/{}", name);
    let result = validate_name(&name, &path_str);
    assert!(result.is_ok());
}

#[test]
fn test_validate_name_uppercase_rejected() {
    let result = validate_name("My-Skill", "/My-Skill");
    assert!(result.is_err());
}

#[test]
fn test_validate_name_mixed_case_rejected() {
    let result = validate_name("mySkill", "/mySkill");
    assert!(result.is_err());
}

#[test]
fn test_validate_name_invalid_chars() {
    let result = validate_name("test_skill", "/test_skill");
    assert!(result.is_err());
}

#[test]
fn test_validate_name_leading_hyphen() {
    let result = validate_name("-test-skill", "/-test-skill");
    assert!(result.is_err());
}

#[test]
fn test_validate_name_trailing_hyphen() {
    let result = validate_name("test-skill-", "/test-skill-");
    assert!(result.is_err());
}

#[test]
fn test_validate_name_consecutive_hyphens() {
    let result = validate_name("test--skill", "/test--skill");
    assert!(result.is_err());
}

#[test]
fn test_validate_name_nfkc_normalized_silently() {
    let name = "te\u{FB01}le";
    let path_str = format!("/{}", name);
    let result = validate_name(name, &path_str);
    assert!(result.is_ok());
}

#[test]
fn test_validate_name_nfkc_cross_form_directory_match() {
    let result = validate_name("te\u{FB01}le", "/tefile");
    assert!(result.is_ok());
}

#[test]
fn test_validate_name_unicode_lowercase_accepted() {
    let result = validate_name("caf\u{00E9}", "/caf\u{00E9}");
    assert!(result.is_ok());
}

#[test]
fn test_validate_name_directory_mismatch() {
    let result = validate_name("my-skill", "/other-skill");
    assert!(result.is_err());
}

#[test]
fn test_validate_name_trimmed_before_checks() {
    let result = validate_name("  my-skill  ", "/my-skill");
    assert!(result.is_ok());
}

#[test]
fn test_validate_name_mismatch_message_names_both() {
    let result = validate_name("my-skill", "/other-skill").map(|_| ());
    match result {
        Err(SkillError::Validation(msgs)) => {
            assert_eq!(msgs, vec!["name 'my-skill' must match directory name 'other-skill'"]);
        }
        _ => panic!("expected a validation failure"),
    }
}

#[test]
fn test_validate_description_valid() {
    let result = validate_description("This is a valid description");
    assert!(result.is_ok());
}

#[test]
fn test_validate_description_empty() {
    let result = validate_description("");
    assert!(result.is_err());
}

#[test]
fn test_validate_description_whitespace_only() {
    let result = validate_description("   ");
    assert!(result.is_err());
}

#[test]
fn test_validate_description_too_long() {
    let long_desc = "a".repeat(1025);
    let result = validate_description(&long_desc);
    assert!(result.is_err());
}

#[test]
fn test_validate_description_at_max_length() {
    let desc = "a".repeat(1024);
    let result = validate_description(&desc);
    assert!(result.is_ok());
}

#[test]
fn test_validate_compatibility_valid() {
    let result = validate_compatibility("v1.0 compatible");
    assert!(result.is_ok());
}

#[test]
fn test_validate_compatibility_too_long() {
    let long_compat = "a".repeat(501);
    let result = validate_compatibility(&long_compat);
    assert!(result.is_err());
}

#[test]
fn test_validate_compatibility_at_max_length() {
    let compat = "a".repeat(500);
    let result = validate_compatibility(&compat);
    assert!(result.is_ok());
}

#[test]
fn test_validate_skill_valid() {
    let fs = MemFS::new();
    let content = "---\nname: test-skill\ndescription: A valid test skill\n---";
    fs.insert("/test-skill/SKILL.md", content);

    let result = validate_skill(&fs, "/test-skill");
    assert!(result.is_ok());
}

#[test]
fn test_validate_skill_requires_matching_directory() {
    let fs = MemFS::new();
    let content = "---\nname: different-name\ndescription: A valid test skill\n---";
    fs.insert("/test-skill/SKILL.md", content);

    let result = validate_skill(&fs, "/test-skill");
    assert!(result.is_err());
}

#[test]
fn test_validate_skill_rejects_unknown_fields() {
    let fs = MemFS::new();
    let content = "---\nname: test-skill\ndescription: A valid skill\nunknown-field: value\n---";
    fs.insert("/test-skill/SKILL.md", content);

    let result = validate_skill(&fs, "/test-skill");
    assert!(result.is_err());
}

#[test]
fn test_validate_skill_uppercase_name_rejected() {
    let fs = MemFS::new();
    let content = "---\nname: Test-Skill\ndescription: A valid skill\n---";
    fs.insert("/Test-Skill/SKILL.md", content);

    let result = validate_skill(&fs, "/Test-Skill");
    assert!(result.is_err());
}

#[test]
fn test_validate_skill_minimal_example() {
    let fs = MemFS::new();
    fs.insert("/my-skill/SKILL.md", "---\nname: my-skill\ndescription: Does X\n---");

    let props = validate_skill(&fs, "/my-skill").unwrap();
    assert_eq!(props.name, "my-skill");
    assert_eq!(props.description, "Does X");
    assert!(props.compatibility.is_none());
    assert!(props.license.is_none());
    assert!(props.allowed_tools.is_none());
    assert!(props.metadata.is_none());
}

#[test]
fn test_validate_skill_unknown_field_single_message() {
    let fs = MemFS::new();
    let content = "---\nname: test-skill\ndescription: ok\nunknown-field: x\n---";
    fs.insert("/test-skill/SKILL.md", content);

    let msgs = validation_messages(validate_skill(&fs, "/test-skill"));
    assert_eq!(msgs.len(), 1);
    assert!(msgs[0].contains("unknown-field"));
    assert!(msgs[0].contains(
        "Only name, description, license, allowed-tools, metadata, compatibility are allowed"
    ));
}

#[test]
fn test_validate_skill_unknown_fields_sorted() {
    let fs = MemFS::new();
    let content = "---\nname: test-skill\ndescription: ok\nzeta: 1\nalpha: 2\n---";
    fs.insert("/test-skill/SKILL.md", content);

    let msgs = validation_messages(validate_skill(&fs, "/test-skill"));
    assert_eq!(msgs.len(), 1);
    assert!(msgs[0].starts_with("Unexpected fields in frontmatter: alpha, zeta."));
}

#[test]
fn test_validate_skill_consecutive_hyphens_despite_directory_match() {
    let fs = MemFS::new();
    let content = "---\nname: test--skill\ndescription: ok\n---";
    fs.insert("/test--skill/SKILL.md", content);

    let msgs = validation_messages(validate_skill(&fs, "/test--skill"));
    assert_eq!(msgs, vec!["name cannot contain consecutive hyphens"]);
}

#[test]
fn test_validate_skill_pools_messages_across_groups() {
    let fs = MemFS::new();
    let content = "---\nname: Bad_Name\ndescription: ok\nmystery: x\n---";
    fs.insert("/bad/SKILL.md", content);

    let msgs = validation_messages(validate_skill(&fs, "/bad"));
    assert!(msgs.len() >= 3);
    assert!(msgs.iter().any(|m| m.contains("mystery")));
    assert!(msgs.iter().any(|m| m == "name must be lowercase"));
    assert!(msgs.iter().any(|m| m.contains("invalid characters")));
}

#[test]
fn test_validate_skill_lowercase_message_present() {
    let fs = MemFS::new();
    let content = "---\nname: Test-Skill\ndescription: A valid skill\n---";
    fs.insert("/Test-Skill/SKILL.md", content);

    let msgs = validation_messages(validate_skill(&fs, "/Test-Skill"));
    assert!(msgs.iter().any(|m| m == "name must be lowercase"));
}

#[test]
fn test_validate_skill_boundary_messages() {
    let fs = MemFS::new();
    let name = "a".repeat(65);
    let content = format!("---\nname: {}\ndescription: ok\n---", name);
    fs.insert("/skill/SKILL.md", &content);

    let msgs = validation_messages(validate_skill(&fs, "/skill"));
    assert!(msgs.iter().any(|m| m == "name exceeds 64 character limit"));
}

#[test]
fn test_validate_skill_twice_same_outcome() {
    let fs = MemFS::new();
    let content = "---\nname: test-skill\ndescription: A valid test skill\n---";
    fs.insert("/test-skill/SKILL.md", content);

    let first = validate_skill(&fs, "/test-skill").unwrap();
    let second = validate_skill(&fs, "/test-skill").unwrap();
    assert_eq!(first.name, second.name);
    assert_eq!(first.description, second.description);
    assert_eq!(first.compatibility, second.compatibility);
    assert_eq!(first.license, second.license);
    assert_eq!(first.allowed_tools, second.allowed_tools);
    assert_eq!(first.metadata, second.metadata);
}

#[test]
fn test_validate_skill_read_failure_is_io() {
    let err = validate_skill(&BrokenFS, "/skill").unwrap_err();
    assert_eq!(err.message(), "IO error: disk unreadable");
}

#[test]
fn test_validate_skill_not_found_message() {
    let fs = MemFS::new();
    let err = validate_skill(&fs, "/skill").unwrap_err();
    assert_eq!(err.message(), "No SKILL.md or skill.md found");
}
