//! Incremental mirroring of a directory tree into a backup root.
//!
//! The library holds the decisions of a backup run: which entries the rule
//! chain keeps (`rules`), where each one lands under the backup root
//! (`path`), and whether and how it is copied again (`plan`).
pub mod entry;
pub mod path;
pub mod plan;
pub mod rules;
mod text;

pub use entry::{Decision, Entry, EntryKind};
pub use path::create_backup_file_path;
pub use plan::{backup_steps, copy_decision, copy_steps, is_newer, BackupNode, CopyDecision, CopyStep};
pub use rules::{default_rules, evaluate, ignore_check_decision, ignore_check_dir, Rule, RuleCheck, RuleOutcome, WalkConfig};
