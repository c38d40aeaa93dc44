//! The content assembler: renders file sections after a header into one
//! text, under an optional byte budget.
//!
//! A section is taken whole or not at all. The first section that would
//! push the running byte total past the budget ends the assembly: it and
//! everything after it are left out, and a single notice closes the text.
//! The notice is not counted in the reported total.

use vstd::prelude::*;
use vstd::string::StringExecFns;
use crate::text::{byte_len, decimal, lemma_byte_len_concat, push_decimal, str_byte_len};

verus! {

/// Why a file's content could not be taken as text.
#[derive(Clone, Copy, Debug, PartialEq, Eq, Structural)]
pub enum ReadFailure {
    /// The file could not be read.
    Unreadable,
    /// The file was read but is not UTF-8 text.
    NotText,
}

/// What a file contributes to a snapshot: its text, or a stand-in.
#[derive(Debug)]
pub enum DisplayableContent {
    Text(String),
    Unreadable,
}

/// A file of a snapshot: its path as it is shown, and its content.
#[derive(Debug)]
pub struct FileEntry {
    pub path: String,
    pub content: DisplayableContent,
}

/// A finished snapshot.
#[derive(Debug)]
pub struct Snapshot {
    /// The rendered text.
    pub blob: String,
    /// Whether sections were left out for the budget.
    pub truncated: bool,
    /// Bytes of the header and the included sections.
    pub total_bytes: usize,
}

/// The text that stands in for content that is binary or unreadable.
pub open spec fn placeholder() -> Seq<char> {
    "<binary or unreadable>"@
}

/// The line that separates a section's path from its content, with the
/// line breaks around it.
pub open spec fn separator() -> Seq<char> {
    "\n---------------------\n"@
}

/// The blank line that closes a section or a header.
pub open spec fn blank_line() -> Seq<char> {
    "\n\n"@
}

/// A section: the path line, the separator line, the content, a blank line.
pub open spec fn section_text(path: Seq<char>, content: Seq<char>) -> Seq<char> {
    path + separator() + content + blank_line()
}

/// A header: the folder glyph, a label, the place, a blank line.
pub open spec fn header_text(label: Seq<char>, place: Seq<char>) -> Seq<char> {
    "\u{f07c} "@ + label + ": "@ + place + blank_line()
}

/// The closing notice of a truncated snapshot. It names the budget in whole
/// kilobytes.
pub open spec fn notice_text(budget: nat) -> Seq<char> {
    "... (truncated due to "@ + decimal(budget / 1024) + "KB size limit)\n"@
}

impl DisplayableContent {
    /// The text that is rendered for this content.
    pub open spec fn text(self) -> Seq<char> {
        match self {
            DisplayableContent::Text(s) => s@,
            DisplayableContent::Unreadable => placeholder(),
        }
    }

    /// Collapses the outcome of reading a file: text is kept, any failure
    /// becomes the stand-in.
    pub fn from_read(read: Result<String, ReadFailure>) -> (r: DisplayableContent)
        ensures
            r == (match read {
                Ok(s) => DisplayableContent::Text(s),
                Err(_) => DisplayableContent::Unreadable,
            }),
    {
        match read {
            Ok(s) => DisplayableContent::Text(s),
            Err(_) => DisplayableContent::Unreadable,
        }
    }

    /// The text that is rendered for this content.
    pub fn as_text(&self) -> (r: &str)
        ensures
            r@ == self.text(),
    {
        match self {
            DisplayableContent::Text(s) => s.as_str(),
            DisplayableContent::Unreadable => "<binary or unreadable>",
        }
    }
}

/// The parts joined in order.
pub open spec fn concat_all(parts: Seq<Seq<char>>) -> Seq<char>
    decreases parts.len(),
{
    if parts.len() == 0 {
        Seq::empty()
    } else {
        concat_all(parts.drop_last()) + parts.last()
    }
}

/// Bytes of the header followed by the first `k` sections.
pub open spec fn prefix_bytes(header: Seq<char>, sections: Seq<Seq<char>>, k: int) -> nat {
    byte_len(header + concat_all(sections.take(k)))
}

/// Whether section `k` fits once the `k` sections before it are in.
pub open spec fn admits(
    header: Seq<char>,
    sections: Seq<Seq<char>>,
    k: int,
    budget: Option<nat>,
) -> bool {
    match budget {
        None => true,
        Some(b) => prefix_bytes(header, sections, k) + byte_len(sections[k]) <= b,
    }
}

/// How many of the first `n` sections are included: sections are taken in
/// order until one does not fit.
pub open spec fn included_upto(
    header: Seq<char>,
    sections: Seq<Seq<char>>,
    budget: Option<nat>,
    n: int,
) -> int
    decreases n,
{
    if n <= 0 {
        0
    } else {
        let k = included_upto(header, sections, budget, n - 1);
        if k == n - 1 && admits(header, sections, n - 1, budget) {
            n
        } else {
            k
        }
    }
}

/// How many sections a snapshot includes.
pub open spec fn included(header: Seq<char>, sections: Seq<Seq<char>>, budget: Option<nat>) -> int {
    included_upto(header, sections, budget, sections.len() as int)
}

/// The notice that closes the text, or nothing when every section is in.
pub open spec fn closing(sections: Seq<Seq<char>>, budget: Option<nat>, k: int) -> Seq<char> {
    match budget {
        Some(b) => if k < sections.len() {
            notice_text(b)
        } else {
            Seq::empty()
        },
        None => Seq::empty(),
    }
}

/// The text of a snapshot.
pub open spec fn assembled_blob(
    header: Seq<char>,
    sections: Seq<Seq<char>>,
    budget: Option<nat>,
) -> Seq<char> {
    let k = included(header, sections, budget);
    header + concat_all(sections.take(k)) + closing(sections, budget, k)
}

/// Whether a snapshot leaves sections out.
pub open spec fn assembled_truncated(
    header: Seq<char>,
    sections: Seq<Seq<char>>,
    budget: Option<nat>,
) -> bool {
    included(header, sections, budget) < sections.len()
}

/// The byte total that a snapshot reports.
pub open spec fn assembled_total(
    header: Seq<char>,
    sections: Seq<Seq<char>>,
    budget: Option<nat>,
) -> nat {
    prefix_bytes(header, sections, included(header, sections, budget))
}

/// A budget as a mathematical value.
pub open spec fn budget_value(budget: Option<usize>) -> Option<nat> {
    match budget {
        Some(b) => Some(b as nat),
        None => None,
    }
}

/// An assembly in progress: the text so far and whether it has been closed
/// for the budget.
pub struct Assembly {
    pub body: String,
    pub budget: Option<usize>,
    pub truncated: bool,
}

impl Assembly {
    /// Begins an assembly with its header.
    pub fn start(header: String, budget: Option<usize>) -> (r: Assembly)
        ensures
            r.body@ == header@,
            r.budget == budget,
            !r.truncated,
    {
        Assembly { body: header, budget, truncated: false }
    }

    /// Whether a section of `section_bytes` bytes fits after the text so far.
    pub open spec fn fits(self, section_bytes: nat) -> bool {
        match self.budget {
            None => true,
            Some(b) => byte_len(self.body@) + section_bytes <= b,
        }
    }

    /// Whether the assembly still takes sections.
    pub fn is_open(&self) -> (r: bool)
        ensures
            r == !self.truncated,
    {
        !self.truncated
    }

    /// Offers the next section. It is appended whole when the assembly is
    /// open and the section fits; otherwise nothing is appended and the
    /// assembly is closed for good. Returns whether it was appended.
    pub fn offer(&mut self, section: &str) -> (taken: bool)
        ensures
            taken == (!old(self).truncated && old(self).fits(byte_len(section@))),
            final(self).budget == old(self).budget,
            final(self).truncated == !taken,
            final(self).body@ == (if taken {
                old(self).body@ + section@
            } else {
                old(self).body@
            }),
    {
        if self.truncated {
            return false;
        }
        match self.budget {
            Some(b) => {
                let total: usize = str_byte_len(self.body.as_str());
                let extra: usize = str_byte_len(section);
                if total > b || extra > b - total {
                    self.truncated = true;
                    return false;
                }
            },
            None => {},
        }
        self.body.append(section);
        true
    }

    /// Closes the assembly: the text gets its notice if sections were left
    /// out, and the total counts the text without the notice.
    pub fn finish(self) -> (r: Snapshot)
        ensures
            r.truncated == self.truncated,
            r.total_bytes == byte_len(self.body@),
            r.blob@ == (match self.budget {
                Some(b) => if self.truncated {
                    self.body@ + notice_text(b as nat)
                } else {
                    self.body@
                },
                None => self.body@,
            }),
    {
        let total_bytes: usize = str_byte_len(self.body.as_str());
        let mut blob = self.body;
        if self.truncated {
            match self.budget {
                Some(b) => {
                    let ghost before = blob@;
                    blob.append("... (truncated due to ");
                    push_decimal(&mut blob, (b / 1024) as u64);
                    blob.append("KB size limit)\n");
                    assert(blob@ =~= before + notice_text(b as nat));
                },
                None => {},
            }
        }
        Snapshot { blob, truncated: self.truncated, total_bytes }
    }
}

/// The sections of `entries` in order, each path shown after `prefix`.
pub open spec fn sections_of(prefix: Seq<char>, entries: Seq<FileEntry>) -> Seq<Seq<char>> {
    Seq::new(
        entries.len(),
        |i: int| section_text(prefix + entries[i].path@, entries[i].content.text()),
    )
}

/// Renders the section of one entry, its path shown after `prefix`.
pub fn render_section(prefix: &str, entry: &FileEntry) -> (r: String)
    ensures
        r@ == section_text(prefix@ + entry.path@, entry.content.text()),
{
    let mut out = String::new();
    out.append(prefix);
    out.append(entry.path.as_str());
    out.append("\n---------------------\n");
    out.append(entry.content.as_text());
    out.append("\n\n");
    assert(out@ =~= section_text(prefix@ + entry.path@, entry.content.text()));
    out
}

/// Renders a header.
pub fn render_header(label: &str, place: &str) -> (r: String)
    ensures
        r@ == header_text(label@, place@),
{
    let mut out = String::new();
    out.append("\u{f07c} ");
    out.append(label);
    out.append(": ");
    out.append(place);
    out.append("\n\n");
    assert(out@ =~= header_text(label@, place@));
    out
}

/// Joining after one more part appends that part.
pub proof fn lemma_concat_push(parts: Seq<Seq<char>>, last: Seq<char>)
    ensures
        concat_all(parts.push(last)) == concat_all(parts) + last,
{
    assert(parts.push(last).drop_last() =~= parts);
}

/// Taking one more section appends it to the text and adds its bytes.
pub proof fn lemma_prefix_step(header: Seq<char>, sections: Seq<Seq<char>>, k: int)
    requires
        0 <= k < sections.len(),
    ensures
        header + concat_all(sections.take(k + 1)) == header + concat_all(sections.take(k))
            + sections[k],
        prefix_bytes(header, sections, k + 1) == prefix_bytes(header, sections, k) + byte_len(
            sections[k],
        ),
{
    assert(sections.take(k + 1) =~= sections.take(k).push(sections[k]));
    lemma_concat_push(sections.take(k), sections[k]);
    assert(header + concat_all(sections.take(k + 1)) =~= header + concat_all(sections.take(k))
        + sections[k]);
    lemma_byte_len_concat(header + concat_all(sections.take(k)), sections[k]);
}

/// The count of included sections never exceeds the count looked at.
pub proof fn lemma_included_bounds(
    header: Seq<char>,
    sections: Seq<Seq<char>>,
    budget: Option<nat>,
    n: int,
)
    requires
        0 <= n,
    ensures
        0 <= included_upto(header, sections, budget, n) <= n,
    decreases n,
{
    if n > 0 {
        lemma_included_bounds(header, sections, budget, n - 1);
    }
}

/// Once a section has been refused, no later section is included.
pub proof fn lemma_included_stays(
    header: Seq<char>,
    sections: Seq<Seq<char>>,
    budget: Option<nat>,
    m: int,
    n: int,
)
    requires
        0 <= m <= n,
        included_upto(header, sections, budget, m) < m,
    ensures
        included_upto(header, sections, budget, n) == included_upto(header, sections, budget, m),
    decreases n - m,
{
    if n > m {
        lemma_included_stays(header, sections, budget, m, n - 1);
    }
}

/// The count of included sections is the position of the first section
/// that does not fit: every section before it fits, and it does not.
pub proof fn lemma_included_is_first_misfit(
    header: Seq<char>,
    sections: Seq<Seq<char>>,
    budget: Option<nat>,
)
    ensures
        0 <= included(header, sections, budget) <= sections.len(),
        forall|j: int|
            0 <= j < included(header, sections, budget) ==> admits(header, sections, j, budget),
        included(header, sections, budget) < sections.len() ==> !admits(
            header,
            sections,
            included(header, sections, budget),
            budget,
        ),
{
    lemma_first_misfit_upto(header, sections, budget, sections.len() as int);
}

proof fn lemma_first_misfit_upto(
    header: Seq<char>,
    sections: Seq<Seq<char>>,
    budget: Option<nat>,
    n: int,
)
    requires
        0 <= n,
    ensures
        0 <= included_upto(header, sections, budget, n) <= n,
        forall|j: int|
            0 <= j < included_upto(header, sections, budget, n) ==> admits(
                header,
                sections,
                j,
                budget,
            ),
        included_upto(header, sections, budget, n) < n ==> !admits(
            header,
            sections,
            included_upto(header, sections, budget, n),
            budget,
        ),
    decreases n,
{
    if n > 0 {
        lemma_first_misfit_upto(header, sections, budget, n - 1);
    }
}

/// Assembles a snapshot from a header and the sections of `entries`, each
/// path shown after `prefix`.
pub fn assemble_sections(
    header: String,
    prefix: &str,
    entries: &Vec<FileEntry>,
    budget: Option<usize>,
) -> (r: Snapshot)
    ensures
        r.blob@ == assembled_blob(header@, sections_of(prefix@, entries@), budget_value(budget)),
        r.truncated == assembled_truncated(
            header@,
            sections_of(prefix@, entries@),
            budget_value(budget),
        ),
        r.total_bytes == assembled_total(
            header@,
            sections_of(prefix@, entries@),
            budget_value(budget),
        ),
{
    let ghost head = header@;
    let ghost sections = sections_of(prefix@, entries@);
    let ghost limit = budget_value(budget);
    let mut assembly = Assembly::start(header, budget);
    let mut i: usize = 0;
    assert(sections.take(0) =~= Seq::<Seq<char>>::empty());
    assert(head + concat_all(sections.take(0)) =~= head);
    while i < entries.len() && assembly.is_open()
        invariant
            i <= entries.len(),
            sections == sections_of(prefix@, entries@),
            limit == budget_value(budget),
            assembly.budget == budget,
            assembly.body@ == head + concat_all(sections.take(i as int)),
            included_upto(head, sections, limit, i as int) == i,
            assembly.truncated ==> i < entries.len() && !admits(head, sections, i as int, limit),
        decreases entries.len() - i, if assembly.truncated { 0int } else { 1int },
    {
        let section = render_section(prefix, &entries[i]);
        let taken = assembly.offer(section.as_str());
        if taken {
            proof {
                lemma_prefix_step(head, sections, i as int);
            }
            i = i + 1;
        }
    }
    proof {
        if assembly.truncated {
            lemma_included_stays(head, sections, limit, i + 1, sections.len() as int);
        } else {
            assert(sections.take(i as int) =~= sections);
        }
    }
    let r = assembly.finish();
    assert(r.blob@ =~= assembled_blob(head, sections, limit));
    r
}

/// Assembles the snapshot of a workspace rooted at `root`: a header that
/// names the root, then one section per entry in the order given, each path
/// shown below `./`, under the byte budget if there is one.
pub fn assemble(root: &str, entries: &Vec<FileEntry>, budget: Option<usize>) -> (r: Snapshot)
    ensures
        r.blob@ == assembled_blob(
            header_text("Workspace"@, root@),
            sections_of("./"@, entries@),
            budget_value(budget),
        ),
        r.truncated == assembled_truncated(
            header_text("Workspace"@, root@),
            sections_of("./"@, entries@),
            budget_value(budget),
        ),
        r.total_bytes == assembled_total(
            header_text("Workspace"@, root@),
            sections_of("./"@, entries@),
            budget_value(budget),
        ),
{
    let header = render_header("Workspace", root);
    assemble_sections(header, "./", entries, budget)
}

/// Under a budget that the header alone does not exceed, the reported total
/// stays within the budget.
pub proof fn lemma_total_within_budget(header: Seq<char>, sections: Seq<Seq<char>>, budget: nat)
    requires
        byte_len(header) <= budget,
    ensures
        assembled_total(header, sections, Some(budget)) <= budget,
{
    let k = included(header, sections, Some(budget));
    lemma_included_is_first_misfit(header, sections, Some(budget));
    if k == 0 {
        assert(sections.take(0) =~= Seq::<Seq<char>>::empty());
        assert(header + concat_all(sections.take(0)) =~= header);
    } else {
        lemma_prefix_step(header, sections, k - 1);
        assert(admits(header, sections, k - 1, Some(budget)));
    }
}

/// A truncated snapshot is the header and the included sections followed by
/// the notice, which comes once and last; the total counts what precedes
/// it. A snapshot that is not truncated carries no notice and holds every
/// section.
pub proof fn lemma_notice_closes_truncated(
    header: Seq<char>,
    sections: Seq<Seq<char>>,
    budget: nat,
)
    ensures
        assembled_truncated(header, sections, Some(budget)) ==> assembled_blob(
            header,
            sections,
            Some(budget),
        ) == header + concat_all(sections.take(included(header, sections, Some(budget))))
            + notice_text(budget) && byte_len(assembled_blob(header, sections, Some(budget)))
            == assembled_total(header, sections, Some(budget)) + byte_len(notice_text(budget)),
        !assembled_truncated(header, sections, Some(budget)) ==> assembled_blob(
            header,
            sections,
            Some(budget),
        ) == header + concat_all(sections),
{
    let k = included(header, sections, Some(budget));
    lemma_included_is_first_misfit(header, sections, Some(budget));
    lemma_byte_len_concat(header + concat_all(sections.take(k)), notice_text(budget));
    if k == sections.len() {
        assert(sections.take(k) =~= sections);
        assert(header + concat_all(sections) + Seq::<char>::empty() =~= header + concat_all(
            sections,
        ));
    }
}

/// Without a budget nothing is left out: the snapshot is not truncated and
/// its text is the header followed by the section of every entry, once
/// each and in order.
pub proof fn lemma_unbudgeted_is_complete(header: Seq<char>, sections: Seq<Seq<char>>)
    ensures
        !assembled_truncated(header, sections, None),
        included(header, sections, None) == sections.len(),
        assembled_blob(header, sections, None) == header + concat_all(sections),
        assembled_total(header, sections, None) == byte_len(header + concat_all(sections)),
{
    lemma_included_is_first_misfit(header, sections, None);
    let k = included(header, sections, None);
    assert(sections.take(k) =~= sections);
    assert(header + concat_all(sections) + Seq::<char>::empty() =~= header + concat_all(sections));
}

/// Whether two lists of entries read alike: as many entries, with the
/// same paths and the same rendered contents, in the same order.
pub open spec fn same_entries(a: Seq<FileEntry>, b: Seq<FileEntry>) -> bool {
    &&& a.len() == b.len()
    &&& forall|i: int|
        0 <= i < a.len() ==> (#[trigger] a[i]).path@ == b[i].path@ && a[i].content.text()
            == b[i].content.text()
}

/// Assembly is a function of what it is given: the same root, entries that
/// read alike and the same budget give the same text, the same flag and
/// the same total.
pub proof fn lemma_same_input_same_snapshot(
    root: Seq<char>,
    a: Seq<FileEntry>,
    b: Seq<FileEntry>,
    budget: Option<nat>,
)
    requires
        same_entries(a, b),
    ensures
        assembled_blob(header_text("Workspace"@, root), sections_of("./"@, a), budget)
            == assembled_blob(header_text("Workspace"@, root), sections_of("./"@, b), budget),
        assembled_truncated(header_text("Workspace"@, root), sections_of("./"@, a), budget)
            == assembled_truncated(header_text("Workspace"@, root), sections_of("./"@, b), budget),
        assembled_total(header_text("Workspace"@, root), sections_of("./"@, a), budget)
            == assembled_total(header_text("Workspace"@, root), sections_of("./"@, b), budget),
{
    assert(sections_of("./"@, a) =~= sections_of("./"@, b));
}

} // verus!
