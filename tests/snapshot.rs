use std::collections::HashMap;

use devshell::tree::{Entry, FileNode, NodeKind, TreeBuilder, WalkAction};

/// A directory tree held in memory: each directory's listing, in order,
/// and each file's text (`None` where it is not text).
struct FakeTree {
    dirs: HashMap<String, Vec<(String, bool)>>,
    files: HashMap<String, Option<String>>,
}

impl FakeTree {
    fn new() -> Self {
        FakeTree { dirs: HashMap::new(), files: HashMap::new() }
    }

    fn dir(&mut self, path: &str, entries: &[(&str, bool)]) {
        let list = entries.iter().map(|(n, d)| (n.to_string(), *d)).collect();
        self.dirs.insert(path.to_string(), list);
    }

    fn file(&mut self, path: &str, text: Option<&str>) {
        self.files.insert(path.to_string(), text.map(|t| t.to_string()));
    }

    fn snapshot(&self, root: &str) -> Vec<FileNode> {
        let mut tree = TreeBuilder::new(root, self.dirs.contains_key(root));
        loop {
            match tree.step() {
                WalkAction::List(dir) => {
                    let entries = self.dirs[&dir]
                        .iter()
                        .map(|(name, is_dir)| Entry {
                            id: format!("{}/{}", dir, name),
                            name: name.clone(),
                            is_dir: *is_dir,
                        })
                        .collect();
                    tree.listed(entries);
                }
                WalkAction::Read(file) => tree.read(self.files[&file].clone()),
                WalkAction::Continue => {}
                WalkAction::Done => break,
            }
        }
        tree.finish()
    }
}

fn kinds(nodes: &[FileNode]) -> Vec<NodeKind> {
    nodes.iter().map(|n| n.kind).collect()
}

fn names(nodes: &[FileNode]) -> Vec<&str> {
    nodes.iter().map(|n| n.name.as_str()).collect()
}

fn check_shape(n: &FileNode, label: &str) {
    assert_eq!(n.folder_name, label);
    match n.kind {
        NodeKind::File => {
            assert!(n.content.is_some());
            assert!(n.children.is_none());
        }
        NodeKind::Folder => {
            assert!(n.content.is_none());
            for c in n.children.as_ref().unwrap() {
                check_shape(c, label);
            }
        }
    }
}

#[test]
fn direct_children_in_listing_order() {
    let mut t = FakeTree::new();
    t.dir("/tmp/proj", &[("z.txt", false), ("src", true), ("a.txt", false), ("docs", true)]);
    t.dir("/tmp/proj/src", &[]);
    t.dir("/tmp/proj/docs", &[("guide.md", false)]);
    t.file("/tmp/proj/z.txt", Some("zz"));
    t.file("/tmp/proj/a.txt", Some(""));
    t.file("/tmp/proj/docs/guide.md", Some("# Guide"));
    let nodes = t.snapshot("/tmp/proj");
    assert_eq!(nodes.len(), 4);
    assert_eq!(names(&nodes), vec!["z.txt", "src", "a.txt", "docs"]);
    assert_eq!(kinds(&nodes), vec![NodeKind::File, NodeKind::Folder, NodeKind::File, NodeKind::Folder]);
    assert_eq!(nodes[0].id, "/tmp/proj/z.txt");
    assert_eq!(nodes[0].content.as_deref(), Some("zz"));
    assert_eq!(nodes[2].content.as_deref(), Some(""));
    assert_eq!(nodes[1].children.as_ref().map(|c| c.len()), Some(0));
    assert_eq!(names(nodes[3].children.as_ref().unwrap()), vec!["guide.md"]);
}

#[test]
fn nested_nodes_carry_root_label() {
    let mut t = FakeTree::new();
    t.dir("/tmp/proj", &[("src", true)]);
    t.dir("/tmp/proj/src", &[("deep", true), ("main.rs", false)]);
    t.dir("/tmp/proj/src/deep", &[("bin.dat", false)]);
    t.file("/tmp/proj/src/main.rs", Some("fn main() {}"));
    t.file("/tmp/proj/src/deep/bin.dat", None);
    let nodes = t.snapshot("/tmp/proj");
    assert_eq!(nodes.len(), 1);
    let src = &nodes[0];
    assert_eq!(src.id, "/tmp/proj/src");
    assert_eq!(src.kind, NodeKind::Folder);
    assert_eq!(src.folder_name, "proj");
    let inner = src.children.as_ref().unwrap();
    assert_eq!(kinds(inner), vec![NodeKind::Folder, NodeKind::File]);
    let deep = &inner[0];
    assert_eq!(deep.folder_name, "proj");
    let file = &deep.children.as_ref().unwrap()[0];
    assert_eq!(file.id, "/tmp/proj/src/deep/bin.dat");
    assert_eq!(file.folder_name, "proj");
    assert_eq!(file.content.as_deref(), Some(""));
    assert_eq!(inner[1].content.as_deref(), Some("fn main() {}"));
    for n in &nodes {
        check_shape(n, "proj");
    }
}

#[test]
fn walk_steps_depth_first() {
    let mut tree = TreeBuilder::new("/r", true);
    assert_eq!(tree.step(), WalkAction::List("/r".to_string()));
    tree.listed(vec![
        Entry { id: "/r/d".to_string(), name: "d".to_string(), is_dir: true },
        Entry { id: "/r/f".to_string(), name: "f".to_string(), is_dir: false },
    ]);
    assert_eq!(tree.step(), WalkAction::Continue);
    assert_eq!(tree.depth(), 1);
    assert_eq!(tree.step(), WalkAction::List("/r/d".to_string()));
    tree.listed(Vec::new());
    assert_eq!(tree.step(), WalkAction::Continue);
    assert_eq!(tree.depth(), 0);
    assert_eq!(tree.step(), WalkAction::Read("/r/f".to_string()));
    tree.read(Some("text".to_string()));
    assert_eq!(tree.step(), WalkAction::Done);
    let nodes = tree.finish();
    assert_eq!(names(&nodes), vec!["d", "f"]);
    assert_eq!(nodes[0].folder_name, "r");
}

#[test]
fn file_or_missing_root_gives_empty_snapshot() {
    let mut b = TreeBuilder::new("/tmp/proj/readme.md", false);
    assert!(!b.walks());
    assert_eq!(b.step(), WalkAction::Done);
    assert!(b.finish().is_empty());
    let mut t = FakeTree::new();
    t.file("/tmp/proj/readme.md", Some("hi"));
    assert!(t.snapshot("/tmp/proj/readme.md").is_empty());
    assert!(t.snapshot("/nonexistent123").is_empty());
}

#[test]
fn kind_names() {
    assert_eq!(NodeKind::File.name(), "file");
    assert_eq!(NodeKind::Folder.name(), "folder");
}
