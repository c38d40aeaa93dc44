//! The three snapshot operations, as far as they compute: what the text of
//! a workspace, a folder or a single file is, what is reported of its size,
//! and when a large size earns an advisory.
//!
//! Walking, reading and delivering are the caller's part; validation of a
//! target comes first, so that a rejected path costs no read and reaches no
//! clipboard.

use vstd::prelude::*;
use vstd::string::StringExecFns;
use crate::assemble::{
    assemble, assemble_sections, assembled_blob, assembled_total, assembled_truncated,
    budget_value, concat_all, header_text, lemma_concat_push, lemma_unbudgeted_is_complete,
    render_header, section_text, sections_of, DisplayableContent, FileEntry, Snapshot,
};
use crate::clipboard::{Backend, Delivery, DeliveryError};
use crate::error::SnapshotError;
use crate::text::{byte_len, decimal, push_decimal, texts};
use crate::utils::{one_decimal, push_one_decimal, tenths, tenths_of};

verus! {

/// The size above which a snapshot earns an advisory: 32 KiB.
pub const ADVISORY_THRESHOLD: usize = 32_768;

/// The byte budget of a limit given in kilobytes. A limit too large to
/// count in bytes is held at the largest count.
pub open spec fn budget_of(max_size_kb: Option<usize>) -> Option<usize> {
    match max_size_kb {
        Some(kb) => if kb * 1024 <= usize::MAX {
            Some((kb * 1024) as usize)
        } else {
            Some(usize::MAX)
        },
        None => None,
    }
}

/// The byte budget of a limit given in kilobytes.
pub fn budget_bytes(max_size_kb: Option<usize>) -> (r: Option<usize>)
    ensures
        r == budget_of(max_size_kb),
{
    match max_size_kb {
        Some(kb) => {
            if kb <= usize::MAX / 1024 {
                Some(kb * 1024)
            } else {
                Some(usize::MAX)
            }
        },
        None => None,
    }
}

/// The snapshot of a workspace: the files in the order given, under the
/// limit if there is one.
pub fn workspace_snapshot(root: &str, entries: &Vec<FileEntry>, max_size_kb: Option<usize>) -> (r:
    Snapshot)
    ensures
        r.blob@ == assembled_blob(
            header_text("Workspace"@, root@),
            sections_of("./"@, entries@),
            budget_value(budget_of(max_size_kb)),
        ),
        r.truncated == assembled_truncated(
            header_text("Workspace"@, root@),
            sections_of("./"@, entries@),
            budget_value(budget_of(max_size_kb)),
        ),
        r.total_bytes == assembled_total(
            header_text("Workspace"@, root@),
            sections_of("./"@, entries@),
            budget_value(budget_of(max_size_kb)),
        ),
{
    assemble(root, entries, budget_bytes(max_size_kb))
}

/// The snapshot of a folder: every file below it in the order given, with
/// no budget. Paths are shown as they are.
pub fn folder_snapshot(folder_path: &str, entries: &Vec<FileEntry>) -> (r: Snapshot)
    ensures
        r.blob@ == assembled_blob(
            header_text("Folder"@, folder_path@),
            sections_of(Seq::empty(), entries@),
            None,
        ),
        !r.truncated,
        r.total_bytes == assembled_total(
            header_text("Folder"@, folder_path@),
            sections_of(Seq::empty(), entries@),
            None,
        ),
{
    let header = render_header("Folder", folder_path);
    let prefix = String::new();
    proof {
        lemma_unbudgeted_is_complete(header@, sections_of(Seq::empty(), entries@));
    }
    assemble_sections(header, prefix.as_str(), entries, None)
}

/// The snapshot of a single file: a header and the one section.
pub fn file_snapshot(file_path: &str, content: DisplayableContent) -> (r: Snapshot)
    ensures
        r.blob@ == header_text("File"@, file_path@) + section_text(file_path@, content.text()),
        !r.truncated,
        r.total_bytes == byte_len(r.blob@),
{
    let header = render_header("File", file_path);
    let mut entries: Vec<FileEntry> = Vec::new();
    entries.push(FileEntry { path: String::from_str(file_path), content });
    let prefix = String::new();
    proof {
        let sections = sections_of(Seq::empty(), entries@);
        let none = Seq::<Seq<char>>::empty();
        lemma_unbudgeted_is_complete(header@, sections);
        assert(Seq::<char>::empty() + file_path@ =~= file_path@);
        assert(sections =~= none.push(section_text(file_path@, content.text())));
        lemma_concat_push(none, sections[0]);
        assert(concat_all(none) =~= Seq::<char>::empty());
        assert(header@ + concat_all(sections) =~= header@ + sections[0]);
    }
    assemble_sections(header, prefix.as_str(), &entries, None)
}

/// Whether a size earns the advisory.
pub fn needs_advisory(total_bytes: usize) -> (r: bool)
    ensures
        r == (total_bytes > ADVISORY_THRESHOLD),
{
    total_bytes > ADVISORY_THRESHOLD
}

/// The line that reports a size: in kilobytes with one decimal place, and
/// in bytes.
pub open spec fn size_line_text(label: Seq<char>, total_bytes: nat) -> Seq<char> {
    label + " size: "@ + one_decimal(tenths(total_bytes, 1024)) + "KB ("@ + decimal(total_bytes)
        + " characters)"@
}

/// The line that reports the size of a snapshot.
pub fn size_line(label: &str, total_bytes: usize) -> (r: String)
    ensures
        r@ == size_line_text(label@, total_bytes as nat),
{
    let mut out = String::new();
    out.append(label);
    out.append(" size: ");
    push_one_decimal(&mut out, tenths_of(total_bytes as u64, 1024));
    out.append("KB (");
    push_decimal(&mut out, total_bytes as u64);
    out.append(" characters)");
    assert(out@ =~= size_line_text(label@, total_bytes as nat));
    out
}

/// The advisory for a size: nothing up to the threshold; above it a
/// warning, and with it a hint at the options that shrink a snapshot when
/// `with_hint` is set.
pub open spec fn advisory_text(total_bytes: nat, with_hint: bool) -> Seq<Seq<char>> {
    if total_bytes <= ADVISORY_THRESHOLD {
        Seq::empty()
    } else if with_hint {
        seq![
            "⚠️  Content is large (>32KB). Some LLMs may truncate input."@,
            "💡 Try: lsr --workspace --source-only or --max-size 32"@,
        ]
    } else {
        seq!["⚠️  Content is large (>32KB). Some LLMs may truncate input."@]
    }
}

/// The advisory lines for a snapshot of `total_bytes` bytes.
pub fn advisory(total_bytes: usize, with_hint: bool) -> (r: Vec<String>)
    ensures
        texts(r@) == advisory_text(total_bytes as nat, with_hint),
{
    let mut out: Vec<String> = Vec::new();
    if needs_advisory(total_bytes) {
        out.push(String::from_str("⚠️  Content is large (>32KB). Some LLMs may truncate input."));
        if with_hint {
            out.push(String::from_str("💡 Try: lsr --workspace --source-only or --max-size 32"));
        }
    }
    assert(texts(out@) =~= advisory_text(total_bytes as nat, with_hint));
    out
}

/// How a snapshot operation ends once delivery was tried: with the backend
/// that took the text, or with the failure of every backend as the
/// operation's own failure.
pub fn conclude(delivery: Result<Delivery, DeliveryError>) -> (r: Result<Backend, SnapshotError>)
    ensures
        match delivery {
            Ok(d) => r == Ok::<Backend, SnapshotError>(d.backend),
            Err(e) => r == Err::<Backend, SnapshotError>(SnapshotError::Delivery(e)),
        },
{
    match delivery {
        Ok(d) => Ok(d.backend),
        Err(e) => Err(SnapshotError::Delivery(e)),
    }
}

/// The line that confirms a delivery.
pub open spec fn confirmation_text() -> Seq<char> {
    "\u{f00c} Content copied to clipboard!"@
}

/// The line that confirms a delivery.
pub fn confirmation() -> (r: &'static str)
    ensures
        r@ == confirmation_text(),
{
    "\u{f00c} Content copied to clipboard!"
}

} // verus!
