use std::cell::RefCell;
use std::collections::HashMap;

use skillcheck::frontmatter::{parse_frontmatter, RawValue};
use skillcheck::fs::FileSystem;
use skillcheck::parser::{find_skill_md, read_properties};

struct MemFS {
    files: RefCell<HashMap<String, String>>,
}

impl MemFS {
    fn new() -> Self {
        MemFS { files: RefCell::new(HashMap::new()) }
    }

    fn insert(&self, path: &str, content: &str) {
        self.files.borrow_mut().insert(path.to_string(), content.to_string());
    }
}

impl FileSystem for MemFS {
    fn path_exists(&self, path: &str) -> bool {
        self.files.borrow().contains_key(path)
    }

    fn read_to_string(&self, path: &str) -> Result<String, String> {
        self.files.borrow().get(path).cloned().ok_or_else(|| "file not found".to_string())
    }

    fn write(&self, path: &str, contents: &str) -> Result<(), String> {
        self.files.borrow_mut().insert(path.to_string(), contents.to_string());
        Ok(())
    }
}

fn text_value(content: &str, key: &str) -> Option<String> {
    let entries = parse_frontmatter(content).unwrap();
    entries.iter().find(|e| e.key == key).and_then(|e| match &e.value {
        RawValue::Text(s) => Some(s.clone()),
        _ => None,
    })
}

#[test]
fn test_find_skill_md_exists() {
    let fs = MemFS::new();
    fs.insert("/skill/SKILL.md", "---\nname: test\n---");

    let found = find_skill_md(&fs, "/skill").unwrap();
    assert!(fs.path_exists(&found));
}

#[test]
fn test_find_skill_md_uppercase_precedence() {
    let fs = MemFS::new();
    fs.insert("/skill/SKILL.md", "---\n---");
    fs.insert("/skill/skill.md", "---\n---");

    let found = find_skill_md(&fs, "/skill").unwrap();
    assert_eq!(found, "/skill/SKILL.md".to_string());
}

#[test]
fn test_find_skill_md_not_found() {
    let fs = MemFS::new();
    let result = find_skill_md(&fs, "/skill");
    assert!(result.is_err());
}

#[test]
fn test_parse_frontmatter_valid() {
    let value = text_value("---\nname: test\n---\nBody content", "name");
    assert_eq!(value.unwrap(), "test");
}

#[test]
fn test_parse_frontmatter_no_body() {
    let value = text_value("---\nname: test\n---", "name");
    assert_eq!(value.unwrap(), "test");
}

#[test]
fn test_parse_frontmatter_multiline() {
    let content = "---\nname: test\ndescription: |\n  Multi\n  line\n---";
    assert_eq!(text_value(content, "name").unwrap(), "test");
    assert!(text_value(content, "description").unwrap().contains("Multi"));
}

#[test]
fn test_parse_frontmatter_no_start() {
    let result = parse_frontmatter("name: test\n---");
    assert!(result.is_err());
}

#[test]
fn test_parse_frontmatter_no_end() {
    let result = parse_frontmatter("---\nname: test");
    assert!(result.is_err());
}

#[test]
fn test_read_properties_basic() {
    let fs = MemFS::new();
    let content = "---\nname: test-skill\ndescription: Test Description\n---";
    fs.insert("/skill/SKILL.md", content);

    let (props, _) = read_properties(&fs, "/skill").unwrap();
    assert_eq!(props.name, "test-skill");
    assert_eq!(props.description, "Test Description");
}

#[test]
fn test_read_properties_with_optional_fields() {
    let fs = MemFS::new();
    let content =
        "---\nname: test-skill\ndescription: Test\nlicense: MIT\ncompatibility: v1.0\nallowed-tools: bash python\n---";
    fs.insert("/skill/SKILL.md", content);

    let (props, _) = read_properties(&fs, "/skill").unwrap();
    assert_eq!(props.license, Some("MIT".to_string()));
    assert_eq!(props.compatibility, Some("v1.0".to_string()));
    assert_eq!(props.allowed_tools, Some("bash python".to_string()));
}

#[test]
fn test_read_properties_file_not_found() {
    let fs = MemFS::new();
    let result = read_properties(&fs, "/nonexistent");
    assert!(result.is_err());
}

#[test]
fn test_read_properties_missing_required_field() {
    let fs = MemFS::new();
    let content = "---\ndescription: Only has description, missing name\n---";
    fs.insert("/skill/SKILL.md", content);

    let result = read_properties(&fs, "/skill");
    assert!(result.is_err());
}

#[test]
fn test_read_properties_multiple_skills_isolated() {
    let fs = MemFS::new();
    fs.insert("/skill1/SKILL.md", "---\nname: skill1\ndescription: First\n---");
    fs.insert("/skill2/SKILL.md", "---\nname: skill2\ndescription: Second\n---");

    let (props1, _) = read_properties(&fs, "/skill1").unwrap();
    let (props2, _) = read_properties(&fs, "/skill2").unwrap();

    assert_eq!(props1.name, "skill1");
    assert_eq!(props2.name, "skill2");
}

#[test]
fn test_read_properties_raw_keys() {
    let fs = MemFS::new();
    let content = "---\nname: test-skill\ndescription: Test\nextra-key: x\n---";
    fs.insert("/skill/SKILL.md", content);

    let (_, mut keys) = read_properties(&fs, "/skill").unwrap();
    keys.sort();
    assert_eq!(keys, vec!["description".to_string(), "extra-key".to_string(), "name".to_string()]);
}

#[test]
fn test_read_properties_metadata_table() {
    let fs = MemFS::new();
    let content = "---\nname: test-skill\ndescription: Test\nmetadata:\n  key: value\n---";
    fs.insert("/skill/SKILL.md", content);

    let (props, _) = read_properties(&fs, "/skill").unwrap();
    let metadata = props.metadata.unwrap();
    assert_eq!(metadata, vec![("key".to_string(), "value".to_string())]);
}

#[test]
fn test_read_properties_name_not_string() {
    let fs = MemFS::new();
    let content = "---\nname: 123\ndescription: Test\n---";
    fs.insert("/skill/SKILL.md", content);

    let result = read_properties(&fs, "/skill");
    assert!(result.is_err());
}

#[test]
fn test_read_properties_empty_name_field() {
    let fs = MemFS::new();
    let content = "---\nname: ''\ndescription: Test\n---";
    fs.insert("/skill/SKILL.md", content);

    let err = read_properties(&fs, "/skill").unwrap_err();
    assert_eq!(err.message(), "Required field is empty: name");
}

#[test]
fn test_read_properties_empty_frontmatter() {
    let fs = MemFS::new();
    fs.insert("/skill/SKILL.md", "---\n---\nJust a body");

    let err = read_properties(&fs, "/skill").unwrap_err();
    assert_eq!(err.message(), "No valid frontmatter found");
}
