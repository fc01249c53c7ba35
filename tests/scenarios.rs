use rackup::{backup_steps, create_backup_file_path, BackupNode, CopyStep, EntryKind};
use std::collections::HashMap;

/// The tree of the scenario: five files in two directories and one empty
/// directory, as a walk lists it (files, and directories with nothing in
/// them), with modification times.
fn tree() -> Vec<(String, EntryKind, i128)> {
    let mut v = Vec::new();
    for name in [
        "DocumentsA/fileAA.txt",
        "DocumentsA/fileAB.txt",
        "DocumentsB/fileBA.pdf",
        "DocumentsB/fileBB.doc",
        "DocumentsB/fileBC.txt",
    ] {
        v.push((format!("/tmp/t1/TestUser/{}", name), EntryKind::File, 1_000));
    }
    v.push(("/tmp/t1/TestUser/DocumentsC".to_string(), EntryKind::Directory, 1_000));
    v
}

/// A backup destination as a map from path to (is a file, modification
/// time); `now` is the clock that copies are stamped with.
struct Destination {
    nodes: HashMap<String, (bool, i128)>,
    now: i128,
}

impl Destination {
    fn node(&self, path: &str) -> BackupNode {
        match self.nodes.get(path) {
            None => BackupNode::Absent,
            Some((false, _)) => BackupNode::NotAFile,
            Some((true, t)) => BackupNode::File { modified: Some(*t) },
        }
    }

    /// Runs one backup over `entries` and returns the sources whose contents
    /// were copied.
    fn run(&mut self, entries: &[(String, EntryKind, i128)], root: &str) -> Vec<String> {
        let mut copied = Vec::new();
        for (source, kind, modified) in entries {
            let backup = create_backup_file_path(source, root);
            let node = self.node(&backup);
            for step in backup_steps(source, *kind, Some(*modified), &node, &backup) {
                self.now += 1;
                match step {
                    CopyStep::CreateDirAll(d) => {
                        self.nodes.insert(d, (false, self.now));
                    }
                    CopyStep::CopyContents { from, to } => {
                        self.nodes.insert(to, (true, self.now));
                        copied.push(from);
                    }
                }
            }
        }
        copied
    }
}

#[test]
fn full_tree_lands_at_mirrored_paths() {
    let mut dest = Destination { nodes: HashMap::new(), now: 2_000 };
    let copied = dest.run(&tree(), "/tmp/t1/Backup");
    assert_eq!(copied.len(), 5);
    for name in [
        "DocumentsA/fileAA.txt",
        "DocumentsA/fileAB.txt",
        "DocumentsB/fileBA.pdf",
        "DocumentsB/fileBB.doc",
        "DocumentsB/fileBC.txt",
    ] {
        let at = format!("/tmp/t1/Backup/tmp/t1/TestUser/{}", name);
        assert_eq!(dest.nodes.get(&at).map(|n| n.0), Some(true), "{}", at);
    }
    for dir in ["DocumentsA/", "DocumentsB/", "DocumentsC"] {
        let at = format!("/tmp/t1/Backup/tmp/t1/TestUser/{}", dir);
        assert_eq!(dest.nodes.get(&at).map(|n| n.0), Some(false), "{}", at);
    }
}

#[test]
fn unchanged_tree_copies_nothing_the_second_time() {
    let mut dest = Destination { nodes: HashMap::new(), now: 2_000 };
    let entries = tree();
    assert_eq!(dest.run(&entries, "/b").len(), 5);
    assert!(dest.run(&entries, "/b").is_empty());
}

#[test]
fn only_the_modified_file_is_copied_again() {
    let mut dest = Destination { nodes: HashMap::new(), now: 2_000 };
    let mut entries = tree();
    dest.run(&entries, "/b");
    entries[1].2 = dest.now + 10;
    let copied = dest.run(&entries, "/b");
    assert_eq!(copied, vec!["/tmp/t1/TestUser/DocumentsA/fileAB.txt".to_string()]);
}

#[test]
fn backup_newer_than_source_is_kept() {
    let mut dest = Destination { nodes: HashMap::new(), now: 2_000 };
    let entries = tree();
    dest.run(&entries, "/b");
    let at = "/b/tmp/t1/TestUser/DocumentsA/fileAA.txt".to_string();
    let edited = dest.now + 100;
    dest.nodes.insert(at.clone(), (true, edited));
    assert!(dest.run(&entries, "/b").is_empty());
    assert_eq!(dest.nodes.get(&at), Some(&(true, edited)));
}
