//! The failures that a snapshot operation reports to its caller.

use vstd::prelude::*;
use vstd::string::StringExecFns;
use crate::clipboard::DeliveryError;

verus! {

/// Why a snapshot operation failed. Failures to read a single file or a
/// single subdirectory are not among these: they are absorbed.
#[derive(Debug)]
pub enum SnapshotError {
    /// The path does not exist.
    NotFound,
    /// The path exists but is of the wrong kind.
    InvalidInput,
    /// The root of the walk could not be read.
    FilesystemError,
    /// Every clipboard backend failed.
    Delivery(DeliveryError),
}

/// What a path leads to.
#[derive(Clone, Copy, Debug, PartialEq, Eq, Structural)]
pub enum PathKind {
    /// Nothing is there.
    Missing,
    /// A regular file.
    File,
    /// A directory.
    Directory,
    /// Something else: a socket, a device.
    Other,
}

/// What a snapshot is taken of.
#[derive(Clone, Copy, Debug, PartialEq, Eq, Structural)]
pub enum Target {
    File,
    Folder,
}

/// The kind of path that a target has to be.
pub open spec fn wanted_kind(target: Target) -> PathKind {
    match target {
        Target::File => PathKind::File,
        Target::Folder => PathKind::Directory,
    }
}

/// The verdict on a path that is to be the target of a snapshot: a missing
/// path is not found, a path of another kind is invalid input.
pub open spec fn target_verdict(target: Target, kind: PathKind) -> Result<(), SnapshotError> {
    if kind == PathKind::Missing {
        Err(SnapshotError::NotFound)
    } else if kind == wanted_kind(target) {
        Ok(())
    } else {
        Err(SnapshotError::InvalidInput)
    }
}

/// Validates the path of a snapshot before anything is read or delivered.
pub fn check_target(target: Target, kind: PathKind) -> (r: Result<(), SnapshotError>)
    ensures
        r == target_verdict(target, kind),
{
    let wanted = match target {
        Target::File => PathKind::File,
        Target::Folder => PathKind::Directory,
    };
    if kind == PathKind::Missing {
        Err(SnapshotError::NotFound)
    } else if kind == wanted {
        Ok(())
    } else {
        Err(SnapshotError::InvalidInput)
    }
}

/// The word for a target in messages.
pub open spec fn target_word(target: Target, capital: bool) -> Seq<char> {
    match target {
        Target::File => if capital {
            "File"@
        } else {
            "file"@
        },
        Target::Folder => if capital {
            "Folder"@
        } else {
            "folder"@
        },
    }
}

/// The message that goes with a rejected target.
pub open spec fn rejection_text(target: Target, kind: PathKind, path: Seq<char>) -> Seq<char> {
    if kind == PathKind::Missing {
        "\u{f00d} "@ + target_word(target, true) + " not found: "@ + path
    } else {
        "\u{f00d} Path is not a "@ + target_word(target, false) + ": "@ + path
    }
}

/// The message for a path that `check_target` rejected.
pub fn rejection_message(target: Target, kind: PathKind, path: &str) -> (r: String)
    requires
        target_verdict(target, kind).is_err(),
    ensures
        r@ == rejection_text(target, kind, path@),
{
    let mut out = String::new();
    if kind == PathKind::Missing {
        out.append("\u{f00d} ");
        match target {
            Target::File => out.append("File"),
            Target::Folder => out.append("Folder"),
        }
        out.append(" not found: ");
    } else {
        out.append("\u{f00d} Path is not a ");
        match target {
            Target::File => out.append("file"),
            Target::Folder => out.append("folder"),
        }
        out.append(": ");
    }
    out.append(path);
    assert(out@ =~= rejection_text(target, kind, path@));
    out
}

/// What a path leads to, from what the file system says of it.
pub fn path_kind(exists: bool, is_file: bool, is_dir: bool) -> (r: PathKind)
    ensures
        r == (if !exists {
            PathKind::Missing
        } else if is_file {
            PathKind::File
        } else if is_dir {
            PathKind::Directory
        } else {
            PathKind::Other
        }),
{
    if !exists {
        PathKind::Missing
    } else if is_file {
        PathKind::File
    } else if is_dir {
        PathKind::Directory
    } else {
        PathKind::Other
    }
}

/// The short reason that goes with a rejected target.
pub open spec fn reason_text(target: Target, kind: PathKind) -> Seq<char> {
    if kind == PathKind::Missing {
        target_word(target, true) + " not found"@
    } else {
        "Path is not a "@ + target_word(target, false)
    }
}

/// The short reason for a path that `check_target` rejected.
pub fn rejection_reason(target: Target, kind: PathKind) -> (r: String)
    requires
        target_verdict(target, kind).is_err(),
    ensures
        r@ == reason_text(target, kind),
{
    let mut out = String::new();
    if kind == PathKind::Missing {
        match target {
            Target::File => out.append("File"),
            Target::Folder => out.append("Folder"),
        }
        out.append(" not found");
    } else {
        out.append("Path is not a ");
        match target {
            Target::File => out.append("file"),
            Target::Folder => out.append("folder"),
        }
    }
    assert(out@ =~= reason_text(target, kind));
    out
}

} // verus!
