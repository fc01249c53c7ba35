use rackup::{backup_steps, copy_decision, copy_steps, is_newer, BackupNode, CopyDecision, CopyStep, EntryKind};

#[test]
fn no_backup_means_newer_whatever_the_time() {
    assert!(is_newer(Some(0), &BackupNode::Absent));
    assert!(is_newer(Some(i128::MIN), &BackupNode::Absent));
    assert!(is_newer(None, &BackupNode::Absent));
}

#[test]
fn backup_slot_holding_a_directory_means_newer() {
    assert!(is_newer(Some(5), &BackupNode::NotAFile));
}

#[test]
fn strictly_later_source_is_newer() {
    assert!(is_newer(Some(101), &BackupNode::File { modified: Some(100) }));
}

#[test]
fn equal_or_earlier_source_is_not_newer() {
    assert!(!is_newer(Some(100), &BackupNode::File { modified: Some(100) }));
    assert!(!is_newer(Some(99), &BackupNode::File { modified: Some(100) }));
}

#[test]
fn unknown_times_are_not_newer() {
    assert!(!is_newer(None, &BackupNode::File { modified: Some(100) }));
    assert!(!is_newer(Some(100), &BackupNode::File { modified: None }));
}

#[test]
fn directories_are_always_copied() {
    let d = copy_decision(EntryKind::Directory, Some(1), &BackupNode::File { modified: Some(2) });
    assert_eq!(d, CopyDecision::Copy);
    let f = copy_decision(EntryKind::File, Some(1), &BackupNode::File { modified: Some(2) });
    assert_eq!(f, CopyDecision::Skip);
}

#[test]
fn file_steps_create_the_parent_then_copy() {
    let steps = copy_steps("/src/a/b.txt", EntryKind::File, "/bak/src/a/b.txt");
    assert_eq!(steps.len(), 2);
    assert!(matches!(&steps[0], CopyStep::CreateDirAll(d) if d == "/bak/src/a/"));
    assert!(
        matches!(&steps[1], CopyStep::CopyContents { from, to } if from == "/src/a/b.txt" && to == "/bak/src/a/b.txt")
    );
}

#[test]
fn directory_steps_create_the_directory() {
    let steps = copy_steps("/src/empty", EntryKind::Directory, "/bak/src/empty");
    assert_eq!(steps.len(), 2);
    assert!(matches!(&steps[1], CopyStep::CreateDirAll(d) if d == "/bak/src/empty"));
}

#[test]
fn bare_backup_name_has_no_parent_step() {
    let steps = copy_steps("source_test_data", EntryKind::File, "backup");
    assert_eq!(steps.len(), 1);
    assert!(matches!(&steps[0], CopyStep::CopyContents { from, to } if from == "source_test_data" && to == "backup"));
}

#[test]
fn skipped_entry_has_no_steps() {
    let node = BackupNode::File { modified: Some(10) };
    assert!(backup_steps("/s/f", EntryKind::File, Some(10), &node, "/b/s/f").is_empty());
    assert_eq!(backup_steps("/s/f", EntryKind::File, Some(11), &node, "/b/s/f").len(), 2);
}
