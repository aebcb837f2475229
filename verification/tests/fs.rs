use std::cell::RefCell;
use std::collections::HashMap;

use skillcheck::fs::FileSystem;

struct MemFS {
    files: RefCell<HashMap<String, String>>,
}

impl MemFS {
    fn new() -> Self {
        MemFS { files: RefCell::new(HashMap::new()) }
    }
}

impl FileSystem for MemFS {
    fn path_exists(&self, path: &str) -> bool {
        self.files.borrow().contains_key(path)
    }

    fn read_to_string(&self, path: &str) -> Result<String, String> {
        self.files.borrow().get(path).cloned().ok_or_else(|| "file not found".to_string())
    }

    fn write(&self, path: &str, contents: &str) -> Result<(), String> {
        self.files.borrow_mut().insert(path.to_string(), contents.to_string());
        Ok(())
    }
}

#[test]
fn test_memfs_write_and_read() {
    let fs = MemFS::new();
    let path = "/test/file.txt";

    fs.write(path, "hello world").unwrap();
    let content = fs.read_to_string(path).unwrap();

    assert_eq!(content, "hello world");
}

#[test]
fn test_memfs_exists() {
    let fs = MemFS::new();
    let path = "/test/file.txt";

    assert!(!fs.path_exists(path));
    fs.write(path, "content").unwrap();
    assert!(fs.path_exists(path));
}

#[test]
fn test_memfs_not_found() {
    let fs = MemFS::new();
    let result = fs.read_to_string("/nonexistent");
    assert!(result.is_err());
}

#[test]
fn test_memfs_multiple_files() {
    let fs = MemFS::new();

    fs.write("/skill1/SKILL.md", "skill 1").unwrap();
    fs.write("/skill2/SKILL.md", "skill 2").unwrap();
    fs.write("/skill3/SKILL.md", "skill 3").unwrap();

    assert_eq!(fs.read_to_string("/skill1/SKILL.md").unwrap(), "skill 1");
    assert_eq!(fs.read_to_string("/skill2/SKILL.md").unwrap(), "skill 2");
    assert_eq!(fs.read_to_string("/skill3/SKILL.md").unwrap(), "skill 3");
}

#[test]
fn test_memfs_overwrite() {
    let fs = MemFS::new();
    let path = "/test.txt";

    fs.write(path, "v1").unwrap();
    assert_eq!(fs.read_to_string(path).unwrap(), "v1");

    fs.write(path, "v2").unwrap();
    assert_eq!(fs.read_to_string(path).unwrap(), "v2");
}
