//! The directory scanner's decisions: which entries are eligible shortcut
//! files, and how an observed interrupt halts the run before any further
//! entry is touched. The iteration itself — reading the directory,
//! metadata and file contents — is I/O and stays with the caller; every
//! decision it acts on is taken here.

use vstd::prelude::*;

use crate::text::{ends_with, str_ends_with};

verus! {

/// The extension an eligible shortcut file must carry.
pub open spec fn shortcut_ext() -> Seq<char> {
    ".url"@
}

/// The kind of a directory entry, as the caller's metadata lookup
/// reports it.
#[derive(Clone, Copy, PartialEq, Eq, Structural, Debug)]
pub enum FileKind {
    Regular,
    Directory,
    Symlink,
    Other,
}

/// Why an entry was passed over without being parsed. Skips are warned
/// about and never fatal.
#[derive(Clone, Copy, PartialEq, Eq, Structural, Debug)]
pub enum SkipReason {
    IsDirectory,
    IsSymlink,
    NotRegularFile,
    NoShortcutExtension,
}

/// What the scanner does with one directory entry.
#[derive(Clone, Copy, PartialEq, Eq, Structural, Debug)]
pub enum EntryPlan {
    /// The interrupt flag was observed set: the run stops here, and no
    /// further entry is processed.
    Halt,
    /// The entry is not an eligible shortcut file: warn and go on.
    Skip(SkipReason),
    /// A regular file with the shortcut extension: read it and parse it.
    Parse,
}

/// An entry's name is eligible when it ends in the shortcut extension.
pub open spec fn eligible_name(name: Seq<char>) -> bool {
    ends_with(name, shortcut_ext())
}

/// The decision for one entry: an observed interrupt halts the run;
/// directories, symlinks and other non-regular files are skipped, as are
/// names without the shortcut extension; what is left gets parsed.
pub open spec fn spec_plan_entry(interrupted: bool, kind: FileKind, name: Seq<char>) -> EntryPlan {
    if interrupted {
        EntryPlan::Halt
    } else {
        match kind {
            FileKind::Directory => EntryPlan::Skip(SkipReason::IsDirectory),
            FileKind::Symlink => EntryPlan::Skip(SkipReason::IsSymlink),
            FileKind::Other => EntryPlan::Skip(SkipReason::NotRegularFile),
            FileKind::Regular => if eligible_name(name) {
                EntryPlan::Parse
            } else {
                EntryPlan::Skip(SkipReason::NoShortcutExtension)
            },
        }
    }
}

/// Decide what to do with one directory entry. The interrupt flag is
/// consulted first: once it reads true, the plan is to halt, whatever the
/// entry looks like.
pub fn plan_entry(interrupted: bool, kind: FileKind, name: &str) -> (r: EntryPlan)
    ensures
        r == spec_plan_entry(interrupted, kind, name@),
        interrupted ==> r == EntryPlan::Halt,
{
    if interrupted {
        return EntryPlan::Halt;
    }
    match kind {
        FileKind::Directory => EntryPlan::Skip(SkipReason::IsDirectory),
        FileKind::Symlink => EntryPlan::Skip(SkipReason::IsSymlink),
        FileKind::Other => EntryPlan::Skip(SkipReason::NotRegularFile),
        FileKind::Regular => {
            if str_ends_with(name, ".url") {
                EntryPlan::Parse
            } else {
                EntryPlan::Skip(SkipReason::NoShortcutExtension)
            }
        },
    }
}

} // verus!
