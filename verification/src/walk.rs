//! Filtering of what a directory walk reports: which entries become files
//! of a snapshot, and which are narrowed to source files.
//!
//! The walk itself, with its ignore rules, happens outside; this module
//! decides over its reports. Nothing below a `.git` directory is ever kept,
//! and only regular files are.

use vstd::prelude::*;
use vstd::string::StringExecFns;
use crate::classify::{is_source_file, is_source_path};
use crate::error::SnapshotError;
use crate::paths::{contains_component, has_component};
use crate::text::{chars_of, texts};

verus! {

/// One entry that a walk visited.
#[derive(Debug)]
pub struct WalkedEntry {
    /// The path as the walk reported it.
    pub path: String,
    /// The same path relative to the root of the walk, when it lies below it.
    pub relative: Option<String>,
    /// Whether the path leads to a regular file.
    pub is_file: bool,
}

/// A failure that a walk met.
#[derive(Debug)]
pub struct WalkFailure {
    /// What went wrong, in words.
    pub message: String,
    /// Whether it was the root of the walk that could not be read.
    pub at_root: bool,
}

/// One report of a walk: an entry, or the failure to read one.
#[derive(Debug)]
pub enum WalkItem {
    Entry(WalkedEntry),
    Failed(WalkFailure),
}

/// The name of the directory that holds version-control metadata.
pub open spec fn git_dir() -> Seq<char> {
    ".git"@
}

/// The path under which a report is kept, if it is kept: the entry is a
/// regular file, it lies below the root, and no component of its path, as
/// reported or relative, is `.git`.
pub open spec fn kept(item: WalkItem) -> Option<String> {
    match item {
        WalkItem::Entry(e) => match e.relative {
            Some(p) => if e.is_file && !has_component(e.path@, git_dir()) && !has_component(
                p@,
                git_dir(),
            ) {
                Some(p)
            } else {
                None
            },
            None => None,
        },
        WalkItem::Failed(_) => None,
    }
}

/// The kept paths of `items`, in the order of the reports.
pub open spec fn selected(items: Seq<WalkItem>) -> Seq<String>
    decreases items.len(),
{
    if items.len() == 0 {
        Seq::empty()
    } else {
        match kept(items.last()) {
            Some(p) => selected(items.drop_last()).push(p),
            None => selected(items.drop_last()),
        }
    }
}

/// The warning for a report, if it is a failure.
pub open spec fn warning(item: WalkItem) -> Option<Seq<char>> {
    match item {
        WalkItem::Entry(_) => None,
        WalkItem::Failed(f) => Some("Warning: Error walking directory: "@ + f.message@),
    }
}

/// The warnings of `items`, in the order of the reports.
pub open spec fn warnings(items: Seq<WalkItem>) -> Seq<Seq<char>>
    decreases items.len(),
{
    if items.len() == 0 {
        Seq::empty()
    } else {
        match warning(items.last()) {
            Some(w) => warnings(items.drop_last()).push(w),
            None => warnings(items.drop_last()),
        }
    }
}

/// Decides over one report of a walk.
pub fn keep(item: &WalkItem) -> (r: Option<String>)
    ensures
        r == kept(*item),
{
    match item {
        WalkItem::Entry(e) => {
            match &e.relative {
                Some(p) => {
                    if !e.is_file {
                        return None;
                    }
                    let git = chars_of(".git");
                    let path = chars_of(e.path.as_str());
                    if contains_component(&path, &git) {
                        return None;
                    }
                    let relative = chars_of(p.as_str());
                    if contains_component(&relative, &git) {
                        return None;
                    }
                    Some(p.clone())
                },
                None => None,
            }
        },
        WalkItem::Failed(_) => None,
    }
}

/// Whether a report says that the root of the walk could not be read.
pub open spec fn is_root_failure(item: WalkItem) -> bool {
    match item {
        WalkItem::Entry(_) => false,
        WalkItem::Failed(f) => f.at_root,
    }
}

/// Whether the walk failed at its root.
pub open spec fn root_failed(items: Seq<WalkItem>) -> bool {
    exists|i: int| 0 <= i < items.len() && is_root_failure(#[trigger] items[i])
}

/// Whether the walk failed at its root.
pub fn failed_at_root(walked: &Vec<WalkItem>) -> (r: bool)
    ensures
        r == root_failed(walked@),
{
    let mut i: usize = 0;
    while i < walked.len()
        invariant
            i <= walked.len(),
            forall|j: int| 0 <= j < i ==> !is_root_failure(#[trigger] walked@[j]),
        decreases walked.len() - i,
    {
        match &walked[i] {
            WalkItem::Failed(f) => {
                if f.at_root {
                    assert(is_root_failure(walked@[i as int]));
                    return true;
                }
            },
            WalkItem::Entry(_) => {},
        }
        i = i + 1;
    }
    false
}

/// Takes the files of a walk. A walk that could not read its root fails as
/// a whole and leaves `files` as it was. Otherwise the relative path of
/// every report that is kept is appended to `files`, in the order of the
/// reports, and one warning is returned for each failure below the root:
/// such a failure costs its own subtree only.
pub fn collect_files(walked: &Vec<WalkItem>, files: &mut Vec<String>) -> (r: Result<
    Vec<String>,
    SnapshotError,
>)
    ensures
        match r {
            Ok(warned) => !root_failed(walked@) && final(files)@ == old(files)@ + selected(
                walked@,
            ) && texts(warned@) == warnings(walked@),
            Err(e) => root_failed(walked@) && e == SnapshotError::FilesystemError && final(files)@
                == old(files)@,
        },
{
    if failed_at_root(walked) {
        return Err(SnapshotError::FilesystemError);
    }
    let mut warned: Vec<String> = Vec::new();
    let mut i: usize = 0;
    assert(walked@.take(0) =~= Seq::<WalkItem>::empty());
    assert(files@ =~= old(files)@ + selected(walked@.take(0)));
    assert(texts(warned@) =~= warnings(walked@.take(0)));
    while i < walked.len()
        invariant
            i <= walked.len(),
            files@ == old(files)@ + selected(walked@.take(i as int)),
            texts(warned@) == warnings(walked@.take(i as int)),
        decreases walked.len() - i,
    {
        let ghost warned_before = warned@;
        assert(walked@.take(i + 1).drop_last() =~= walked@.take(i as int));
        assert(walked@.take(i + 1).last() == walked@[i as int]);
        match keep(&walked[i]) {
            Some(p) => {
                files.push(p);
            },
            None => {},
        }
        assert(files@ =~= old(files)@ + selected(walked@.take(i + 1)));
        match &walked[i] {
            WalkItem::Failed(f) => {
                let mut w = String::new();
                w.append("Warning: Error walking directory: ");
                w.append(f.message.as_str());
                assert(w@ =~= "Warning: Error walking directory: "@ + f.message@);
                warned.push(w);
                assert(texts(warned@) =~= texts(warned_before).push(w@));
            },
            WalkItem::Entry(_) => {},
        }
        assert(texts(warned@) =~= warnings(walked@.take(i + 1)));
        i = i + 1;
    }
    assert(walked@.take(i as int) =~= walked@);
    Ok(warned)
}

/// Whether a report is of a regular file with no `.git` component in its
/// path.
pub open spec fn is_file_outside_git(item: WalkItem) -> bool {
    match item {
        WalkItem::Entry(e) => e.is_file && !has_component(e.path@, git_dir()),
        WalkItem::Failed(_) => false,
    }
}

/// Whether the path `p` was selected for the report `item`.
pub open spec fn selects(item: WalkItem, p: String) -> bool {
    is_file_outside_git(item) && kept(item) == Some(p)
}

/// Nothing that a walk yields lies inside version-control metadata, and
/// nothing is a directory: no component of a selected path is `.git`, and
/// every selected path comes from a report of a regular file whose own
/// path has no such component either.
pub proof fn lemma_selected_are_files_outside_git(items: Seq<WalkItem>, i: int)
    requires
        0 <= i < selected(items).len(),
    ensures
        !has_component(selected(items)[i]@, git_dir()),
        exists|j: int| 0 <= j < items.len() && selects(#[trigger] items[j], selected(items)[i]),
    decreases items.len(),
{
    if items.len() > 0 {
        let rest = items.drop_last();
        if kept(items.last()).is_some() && i == selected(rest).len() {
            assert(selects(items[items.len() - 1], selected(items)[i]));
        } else {
            lemma_selected_are_files_outside_git(rest, i);
            let j = choose|j: int| 0 <= j < rest.len() && selects(#[trigger] rest[j], selected(rest)[i]);
            assert(items[j] == rest[j]);
            assert(selects(items[j], selected(items)[i]));
        }
    }
}

/// A report from inside a `.git` directory, of something that is no regular
/// file, or of a failure adds nothing to the selection.
pub proof fn lemma_unkept_adds_nothing(items: Seq<WalkItem>, item: WalkItem)
    requires
        kept(item).is_none(),
    ensures
        selected(items.push(item)) == selected(items),
{
    assert(items.push(item).drop_last() =~= items);
}

/// The paths of `paths` that are classified as source, in order.
pub open spec fn sources_only(paths: Seq<String>) -> Seq<String>
    decreases paths.len(),
{
    if paths.len() == 0 {
        Seq::empty()
    } else if is_source_path(paths.last()@) {
        sources_only(paths.drop_last()).push(paths.last())
    } else {
        sources_only(paths.drop_last())
    }
}

/// The paths that a snapshot covers: all of them, or the source files alone.
pub open spec fn classified(paths: Seq<String>, source_only: bool) -> Seq<String> {
    if source_only {
        sources_only(paths)
    } else {
        paths
    }
}

/// Narrows `files` to source files when `source_only` is set, and leaves
/// them as they are otherwise. The order of what stays is kept.
pub fn classify_files(files: Vec<String>, source_only: bool) -> (r: Vec<String>)
    ensures
        r@ == classified(files@, source_only),
{
    if !source_only {
        return files;
    }
    let mut out: Vec<String> = Vec::new();
    let mut i: usize = 0;
    assert(files@.take(0) =~= Seq::<String>::empty());
    while i < files.len()
        invariant
            i <= files.len(),
            out@ == sources_only(files@.take(i as int)),
        decreases files.len() - i,
    {
        assert(files@.take(i + 1).drop_last() =~= files@.take(i as int));
        assert(files@.take(i + 1).last() == files@[i as int]);
        if is_source_file(files[i].as_str()) {
            out.push(files[i].clone());
        }
        i = i + 1;
    }
    assert(files@.take(i as int) =~= files@);
    out
}

} // verus!
