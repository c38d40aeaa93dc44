//! The decisions behind the listings: embedding of rendered tables, the
//! state of a `PATH` directory, the shape of a tree view, and the colours
//! of alternating rows.

use vstd::prelude::*;
use vstd::string::StringExecFns;
use crate::text::{chars_of, copy_range, string_of_range, trim_range, trimmed, trimmed_range};
use crate::themes::{Rgb, Theme};
use crate::utils::{
    color_code, cut, foreground_code, line_ranges, lines, ranges_within, reset_code,
};

verus! {

/// Whether `c` is an ASCII letter: the character that ends an escape
/// sequence.
pub open spec fn is_ascii_letter(c: char) -> bool {
    ('a' <= c && c <= 'z') || ('A' <= c && c <= 'Z')
}

/// What is left of `s[i..]` once escape sequences are taken out. A
/// sequence runs from an escape character up to and including the next
/// ASCII letter, or to the end of the text when no letter follows.
/// `in_escape` says whether position `i` lies within a sequence.
pub open spec fn stripped_from(s: Seq<char>, i: int, in_escape: bool) -> Seq<char>
    decreases s.len() - i,
{
    if i < 0 || i >= s.len() {
        Seq::empty()
    } else if in_escape {
        stripped_from(s, i + 1, !is_ascii_letter(s[i]))
    } else if s[i] == '\x1b' {
        stripped_from(s, i + 1, true)
    } else {
        seq![s[i]] + stripped_from(s, i + 1, false)
    }
}

/// A text without its escape sequences.
pub open spec fn stripped(s: Seq<char>) -> Seq<char> {
    stripped_from(s, 0, false)
}

/// Whether `c` is an ASCII letter.
pub fn ascii_letter(c: char) -> (r: bool)
    ensures
        r == is_ascii_letter(c),
{
    ('a' <= c && c <= 'z') || ('A' <= c && c <= 'Z')
}

/// Removes the escape sequences from a rendered table, so that it can be
/// embedded in a cell of another.
pub fn strip_ansi_codes(input: &str) -> (r: String)
    ensures
        r@ == stripped(input@),
{
    let v = chars_of(input);
    let mut out = String::new();
    let mut i: usize = 0;
    let mut in_escape = false;
    assert(stripped(v@) =~= out@ + stripped_from(v@, 0, false));
    while i < v.len()
        invariant
            i <= v.len(),
            stripped(v@) == out@ + stripped_from(v@, i as int, in_escape),
        decreases v.len() - i,
    {
        let c = v[i];
        let ghost before = out@;
        if in_escape {
            in_escape = !ascii_letter(c);
        } else if c == '\x1b' {
            in_escape = true;
        } else {
            out.push(c);
            assert(out@ + stripped_from(v@, i + 1, false) =~= before + (seq![c] + stripped_from(
                v@,
                i + 1,
                false,
            )));
        }
        i = i + 1;
    }
    assert(out@ + Seq::<char>::empty() =~= out@);
    out
}

/// The state of a directory that `PATH` names.
#[derive(Clone, Copy, Debug, PartialEq, Eq, Structural)]
pub enum PathStatus {
    Usable,
    Missing,
    BrokenSymlink,
    SymlinkToDirectory,
    SymlinkToFile,
    NotADirectory,
}

/// The state of a directory of `PATH`, from what the file system says of
/// it.
pub open spec fn status_of(exists: bool, is_dir: bool, is_symlink: bool) -> PathStatus {
    if !exists {
        if is_symlink {
            PathStatus::BrokenSymlink
        } else {
            PathStatus::Missing
        }
    } else if is_symlink && is_dir {
        PathStatus::SymlinkToDirectory
    } else if is_symlink {
        PathStatus::SymlinkToFile
    } else if !is_dir {
        PathStatus::NotADirectory
    } else {
        PathStatus::Usable
    }
}

/// The state of a directory of `PATH`.
pub fn path_status(exists: bool, is_dir: bool, is_symlink: bool) -> (r: PathStatus)
    ensures
        r == status_of(exists, is_dir, is_symlink),
{
    if !exists {
        if is_symlink {
            PathStatus::BrokenSymlink
        } else {
            PathStatus::Missing
        }
    } else if is_symlink && is_dir {
        PathStatus::SymlinkToDirectory
    } else if is_symlink {
        PathStatus::SymlinkToFile
    } else if !is_dir {
        PathStatus::NotADirectory
    } else {
        PathStatus::Usable
    }
}

impl PathStatus {
    /// The words for a state.
    pub open spec fn label_text(self) -> Seq<char> {
        match self {
            PathStatus::Usable => "OK"@,
            PathStatus::Missing => "Missing"@,
            PathStatus::BrokenSymlink => "Broken symlink"@,
            PathStatus::SymlinkToDirectory => "Symlink to directory"@,
            PathStatus::SymlinkToFile => "Symlink to file"@,
            PathStatus::NotADirectory => "Not a directory"@,
        }
    }

    /// The words for a state.
    pub fn label(&self) -> (r: &'static str)
        ensures
            r@ == self.label_text(),
    {
        match self {
            PathStatus::Usable => "OK",
            PathStatus::Missing => "Missing",
            PathStatus::BrokenSymlink => "Broken symlink",
            PathStatus::SymlinkToDirectory => "Symlink to directory",
            PathStatus::SymlinkToFile => "Symlink to file",
            PathStatus::NotADirectory => "Not a directory",
        }
    }
}

/// The mark before a directory of `PATH`: an arrow for a symlink, a cross
/// for what is missing or no directory, and `None` where the icon of the
/// directory itself is due.
pub open spec fn path_mark_of(exists: bool, is_dir: bool, is_symlink: bool) -> Option<Seq<char>> {
    if exists && is_dir {
        if is_symlink {
            Some("↪"@)
        } else {
            None
        }
    } else if is_symlink {
        Some("↪"@)
    } else {
        Some("✗"@)
    }
}

/// The mark before a directory of `PATH`.
pub fn path_mark(exists: bool, is_dir: bool, is_symlink: bool) -> (r: Option<&'static str>)
    ensures
        match r {
            Some(m) => path_mark_of(exists, is_dir, is_symlink) == Some(m@),
            None => path_mark_of(exists, is_dir, is_symlink).is_none(),
        },
{
    if exists && is_dir {
        if is_symlink {
            Some("↪")
        } else {
            None
        }
    } else if is_symlink {
        Some("↪")
    } else {
        Some("✗")
    }
}

/// The colour of a directory of `PATH`: that of directory names for a
/// directory, that of permissions for a symlink that leads elsewhere, that
/// of file names for the rest.
pub fn path_color(theme: &Theme, exists: bool, is_dir: bool, is_symlink: bool) -> (r: Rgb)
    ensures
        r == (if exists && is_dir {
            theme.dir_name
        } else if is_symlink {
            theme.permissions
        } else {
            theme.file_name
        }),
{
    if exists && is_dir {
        theme.dir_name
    } else if is_symlink {
        theme.permissions
    } else {
        theme.file_name
    }
}

/// The colour of a state: the file-size colour for a directory in order,
/// the modification colour for any other state.
pub fn status_color(theme: &Theme, status: PathStatus) -> (r: Rgb)
    ensures
        r == (if status == PathStatus::Usable {
            theme.file_size
        } else {
            theme.modified
        }),
{
    if status == PathStatus::Usable {
        theme.file_size
    } else {
        theme.modified
    }
}

/// Of two colours, the first for rows at even positions and the second for
/// rows at odd ones.
pub fn row_color(index: usize, even: Rgb, odd: Rgb) -> (r: Rgb)
    ensures
        r == (if index % 2 == 0 {
            even
        } else {
            odd
        }),
{
    if index % 2 == 0 {
        even
    } else {
        odd
    }
}

/// Whether a tree view descends into level `depth`: it does unless a limit
/// is set and reached.
pub fn within_depth(depth: usize, max_depth: Option<usize>) -> (r: bool)
    ensures
        r == (match max_depth {
            Some(max) => depth < max,
            None => true,
        }),
{
    match max_depth {
        Some(max) => depth < max,
        None => true,
    }
}

/// Whether a name is hidden: it begins with a dot.
pub open spec fn is_hidden(name: Seq<char>) -> bool {
    name.len() > 0 && name[0] == '.'
}

/// Whether a tree view shows an entry: hidden names only when all are
/// asked for.
pub fn tree_shows(name: &str, show_all: bool) -> (r: bool)
    ensures
        r == (show_all || !is_hidden(name@)),
{
    if show_all {
        return true;
    }
    let v = chars_of(name);
    !(v.len() > 0 && v[0] == '.')
}

/// The branch drawn before an entry of a tree.
pub open spec fn branch_text(is_last: bool) -> Seq<char> {
    if is_last {
        "└── "@
    } else {
        "├── "@
    }
}

/// The branch drawn before an entry of a tree: a corner before the last
/// entry of a directory, a tee before the others.
pub fn tree_branch(is_last: bool) -> (r: &'static str)
    ensures
        r@ == branch_text(is_last),
{
    if is_last {
        "└── "
    } else {
        "├── "
    }
}

/// What the entries below an entry are indented with: blanks below the
/// last entry of a directory, a coloured bar and blanks below the others.
pub open spec fn indent_text(prefix: Seq<char>, is_last: bool, border: Rgb) -> Seq<char> {
    if is_last {
        prefix + "    "@
    } else {
        prefix + color_code(border) + "│"@ + reset_code() + "   "@
    }
}

/// The prefix of the entries below an entry of a tree.
pub fn tree_indent(prefix: &str, is_last: bool, theme: &Theme) -> (r: String)
    ensures
        r@ == indent_text(prefix@, is_last, theme.border),
{
    let mut out = String::from_str(prefix);
    if is_last {
        out.append("    ");
    } else {
        let code = foreground_code(theme.border);
        out.append(code.as_str());
        out.append("│");
        out.append("\x1b[0m");
        out.append("   ");
    }
    assert(out@ =~= indent_text(prefix@, is_last, theme.border));
    out
}

/// One field of a report on the processor: what stands before the first
/// colon of a line, and what stands after it.
#[derive(Debug)]
pub struct CpuField {
    pub key: String,
    pub value: String,
}

/// Position of the first colon in `s[from..]`, or the length of `s` when
/// there is none.
pub open spec fn colon_at(s: Seq<char>, from: int) -> int
    decreases s.len() - from,
{
    if from >= s.len() {
        s.len() as int
    } else if s[from] == ':' {
        from
    } else {
        colon_at(s, from + 1)
    }
}

/// The field that a line holds: none for a blank line or a line without
/// a colon; else the texts on both sides of the first colon, trimmed.
pub open spec fn cpu_field(line: Seq<char>) -> Option<(Seq<char>, Seq<char>)> {
    let c = colon_at(line, 0);
    if trimmed(line).len() == 0 || c >= line.len() {
        None
    } else {
        Some((trimmed_range(line, 0, c), trimmed_range(line, c + 1, line.len() as int)))
    }
}

/// The fields of the lines that hold one, in order.
pub open spec fn cpu_fields(lines: Seq<Seq<char>>) -> Seq<(Seq<char>, Seq<char>)>
    decreases lines.len(),
{
    if lines.len() == 0 {
        Seq::empty()
    } else {
        match cpu_field(lines.last()) {
            Some(f) => cpu_fields(lines.drop_last()).push(f),
            None => cpu_fields(lines.drop_last()),
        }
    }
}

/// The texts of a sequence of fields.
pub open spec fn field_texts(fields: Seq<CpuField>) -> Seq<(Seq<char>, Seq<char>)> {
    Seq::new(fields.len(), |i: int| (fields[i].key@, fields[i].value@))
}

/// Reads the field of one line.
pub fn parse_cpu_line(line: &Vec<char>) -> (r: Option<CpuField>)
    ensures
        match r {
            Some(f) => cpu_field(line@) == Some((f.key@, f.value@)),
            None => cpu_field(line@).is_none(),
        },
{
    let n: usize = line.len();
    let (a, e) = trim_range(line, 0, n);
    if a == e {
        return None;
    }
    let mut c: usize = 0;
    while c < n && line[c] != ':'
        invariant
            c <= n,
            n == line.len(),
            colon_at(line@, 0) == colon_at(line@, c as int),
        decreases n - c,
    {
        c = c + 1;
    }
    if c >= n {
        return None;
    }
    let (ka, ke) = trim_range(line, 0, c);
    let (va, ve) = trim_range(line, c + 1, n);
    let key = string_of_range(line, ka, ke);
    let value = string_of_range(line, va, ve);
    Some(CpuField { key, value })
}

/// Reads the report of `lscpu`: one field per line that has a colon and is
/// not blank.
pub fn parse_cpu_info(output: &str) -> (r: Vec<CpuField>)
    ensures
        field_texts(r@) == cpu_fields(lines(output@)),
{
    let v = chars_of(output);
    let ranges = line_ranges(&v);
    let ghost all = lines(v@);
    let mut out: Vec<CpuField> = Vec::new();
    let mut i: usize = 0;
    assert(all.take(0) =~= Seq::<Seq<char>>::empty());
    assert(field_texts(out@) =~= cpu_fields(all.take(0)));
    while i < ranges.len()
        invariant
            i <= ranges.len(),
            all == lines(v@),
            ranges_within(ranges@, v.len() as int),
            cut(v@, ranges@) == all,
            field_texts(out@) == cpu_fields(all.take(i as int)),
        decreases ranges.len() - i,
    {
        let (from, to) = ranges[i];
        assert(all[i as int] == cut(v@, ranges@)[i as int]);
        let line = copy_range(&v, from, to);
        let ghost before = out@;
        assert(all.take(i + 1).drop_last() =~= all.take(i as int));
        assert(all.take(i + 1).last() == all[i as int]);
        match parse_cpu_line(&line) {
            Some(f) => {
                let ghost pair = (f.key@, f.value@);
                out.push(f);
                assert(field_texts(out@) =~= field_texts(before).push(pair));
            },
            None => {},
        }
        i = i + 1;
    }
    assert(all.take(i as int) =~= all);
    out
}

/// What a directory listing is sorted by.
#[derive(Clone, Copy, Debug, PartialEq, Eq, Structural)]
pub enum SortBy {
    Name,
    Size,
    Modified,
    Type,
}

/// How one item stands to another in a sorted listing.
#[derive(Clone, Copy, Debug, PartialEq, Eq, Structural)]
pub enum Order {
    Before,
    Same,
    After,
}

/// An entry of a directory listing, as far as sorting reads it.
#[derive(Debug)]
pub struct ListedEntry {
    pub name: String,
    pub size: u64,
    /// Time of the last change, in nanoseconds since the epoch.
    pub modified: u128,
    pub is_dir: bool,
}

/// The order of two numbers.
pub open spec fn number_order(a: int, b: int) -> Order {
    if a < b {
        Order::Before
    } else if a > b {
        Order::After
    } else {
        Order::Same
    }
}

/// The order of two texts: by the first character in which they differ,
/// a text coming before every longer text that it begins.
pub open spec fn text_order(a: Seq<char>, b: Seq<char>) -> Order
    decreases a.len(),
{
    if a.len() == 0 {
        if b.len() == 0 {
            Order::Same
        } else {
            Order::Before
        }
    } else if b.len() == 0 {
        Order::After
    } else if a[0] < b[0] {
        Order::Before
    } else if a[0] > b[0] {
        Order::After
    } else {
        text_order(a.drop_first(), b.drop_first())
    }
}

/// The order by type: directories before files, names deciding among
/// equals.
pub open spec fn kind_order(a_dir: bool, a_name: Seq<char>, b_dir: bool, b_name: Seq<char>) -> Order {
    if a_dir && !b_dir {
        Order::Before
    } else if !a_dir && b_dir {
        Order::After
    } else {
        text_order(a_name, b_name)
    }
}

/// The order of two entries under a sort key.
pub open spec fn entry_order_of(a: ListedEntry, b: ListedEntry, by: SortBy) -> Order {
    match by {
        SortBy::Name => text_order(a.name@, b.name@),
        SortBy::Size => number_order(a.size as int, b.size as int),
        SortBy::Modified => number_order(a.modified as int, b.modified as int),
        SortBy::Type => kind_order(a.is_dir, a.name@, b.is_dir, b.name@),
    }
}

/// The order of two texts.
pub fn order_texts(a: &str, b: &str) -> (r: Order)
    ensures
        r == text_order(a@, b@),
{
    let x = chars_of(a);
    let y = chars_of(b);
    let mut i: usize = 0;
    assert(x@.subrange(0, x.len() as int) =~= x@);
    assert(y@.subrange(0, y.len() as int) =~= y@);
    while i < x.len() && i < y.len()
        invariant
            i <= x.len(),
            i <= y.len(),
            x@ == a@,
            y@ == b@,
            text_order(x@, y@) == text_order(
                x@.subrange(i as int, x.len() as int),
                y@.subrange(i as int, y.len() as int),
            ),
        decreases x.len() - i,
    {
        let ghost xs = x@.subrange(i as int, x.len() as int);
        let ghost ys = y@.subrange(i as int, y.len() as int);
        assert(xs[0] == x@[i as int]);
        assert(ys[0] == y@[i as int]);
        assert(xs.len() > 0 && ys.len() > 0);
        if x[i] < y[i] {
            assert(text_order(xs, ys) == Order::Before);
            return Order::Before;
        }
        if x[i] > y[i] {
            assert(text_order(xs, ys) == Order::After);
            return Order::After;
        }
        assert(xs.drop_first() =~= x@.subrange(i + 1, x.len() as int));
        assert(ys.drop_first() =~= y@.subrange(i + 1, y.len() as int));
        i = i + 1;
    }
    if i < y.len() {
        Order::Before
    } else if i < x.len() {
        Order::After
    } else {
        Order::Same
    }
}

/// The order of two entries of a tree view: directories first, then by
/// name.
pub fn tree_order(a_is_dir: bool, a_name: &str, b_is_dir: bool, b_name: &str) -> (r: Order)
    ensures
        r == kind_order(a_is_dir, a_name@, b_is_dir, b_name@),
{
    if a_is_dir && !b_is_dir {
        Order::Before
    } else if !a_is_dir && b_is_dir {
        Order::After
    } else {
        order_texts(a_name, b_name)
    }
}

/// The order of two entries of a directory listing under a sort key.
pub fn entry_order(a: &ListedEntry, b: &ListedEntry, by: SortBy) -> (r: Order)
    ensures
        r == entry_order_of(*a, *b, by),
{
    match by {
        SortBy::Name => order_texts(a.name.as_str(), b.name.as_str()),
        SortBy::Size => {
            if a.size < b.size {
                Order::Before
            } else if a.size > b.size {
                Order::After
            } else {
                Order::Same
            }
        },
        SortBy::Modified => {
            if a.modified < b.modified {
                Order::Before
            } else if a.modified > b.modified {
                Order::After
            } else {
                Order::Same
            }
        },
        SortBy::Type => tree_order(a.is_dir, a.name.as_str(), b.is_dir, b.name.as_str()),
    }
}

/// Two texts are in the same place exactly when they are equal.
pub proof fn lemma_text_order_same(a: Seq<char>, b: Seq<char>)
    ensures
        text_order(a, b) == Order::Same <==> a == b,
    decreases a.len(),
{
    if a.len() > 0 && b.len() > 0 {
        lemma_text_order_same(a.drop_first(), b.drop_first());
        if a[0] == b[0] {
            if a.drop_first() == b.drop_first() {
                assert(a =~= seq![a[0]] + a.drop_first());
                assert(b =~= seq![b[0]] + b.drop_first());
            }
        }
    } else if a.len() == 0 && b.len() == 0 {
        assert(a =~= b);
    }
}

/// Swapping two texts swaps before and after.
pub proof fn lemma_text_order_flips(a: Seq<char>, b: Seq<char>)
    ensures
        text_order(a, b) == Order::Before <==> text_order(b, a) == Order::After,
    decreases a.len(),
{
    if a.len() > 0 && b.len() > 0 {
        lemma_text_order_flips(a.drop_first(), b.drop_first());
    }
}

/// What follows the name of an entry in a tree: a coloured slash after a
/// directory, then the reset code.
pub open spec fn name_suffix(is_dir: bool, theme: Theme) -> Seq<char> {
    if is_dir {
        color_code(theme.dir_type) + "/"@ + reset_code()
    } else {
        reset_code()
    }
}

/// The line of an entry in a tree: the prefix of its level, the branch in
/// the border colour, then icon and name in the colour of its kind, and
/// the suffix of its kind.
pub open spec fn tree_line_text(
    prefix: Seq<char>,
    is_last: bool,
    icon: Seq<char>,
    name: Seq<char>,
    is_dir: bool,
    theme: Theme,
) -> Seq<char> {
    prefix + color_code(theme.border) + branch_text(is_last) + reset_code() + color_code(
        if is_dir {
            theme.dir_name
        } else {
            theme.file_name
        },
    ) + icon + " "@ + name + name_suffix(is_dir, theme)
}

/// The line of an entry in a tree.
pub fn tree_line(
    prefix: &str,
    is_last: bool,
    icon: &str,
    name: &str,
    is_dir: bool,
    theme: &Theme,
) -> (r: String)
    ensures
        r@ == tree_line_text(prefix@, is_last, icon@, name@, is_dir, *theme),
{
    let mut out = String::from_str(prefix);
    let border = foreground_code(theme.border);
    out.append(border.as_str());
    out.append(tree_branch(is_last));
    out.append("\x1b[0m");
    let name_code = foreground_code(
        if is_dir {
            theme.dir_name
        } else {
            theme.file_name
        },
    );
    out.append(name_code.as_str());
    out.append(icon);
    out.append(" ");
    out.append(name);
    if is_dir {
        let type_code = foreground_code(theme.dir_type);
        out.append(type_code.as_str());
        out.append("/");
    }
    out.append("\x1b[0m");
    assert(out@ =~= tree_line_text(prefix@, is_last, icon@, name@, is_dir, *theme));
    out
}

/// The line of the root of a tree: icon and name in the colour of
/// directory names.
pub open spec fn tree_root_text(icon: Seq<char>, name: Seq<char>, theme: Theme) -> Seq<char> {
    color_code(theme.dir_name) + icon + " "@ + name + reset_code()
}

/// The line of the root of a tree.
pub fn tree_root_line(icon: &str, name: &str, theme: &Theme) -> (r: String)
    ensures
        r@ == tree_root_text(icon@, name@, *theme),
{
    let mut out = foreground_code(theme.dir_name);
    out.append(icon);
    out.append(" ");
    out.append(name);
    out.append("\x1b[0m");
    assert(out@ =~= tree_root_text(icon@, name@, *theme));
    out
}

/// The word for the kind of an entry in a listing.
pub fn kind_label(is_dir: bool) -> (r: &'static str)
    ensures
        r@ == (if is_dir {
            "Directory"@
        } else {
            "File"@
        }),
{
    if is_dir {
        "Directory"
    } else {
        "File"
    }
}

/// Of two colours, the first for a directory and the second for a file.
pub fn kind_color(is_dir: bool, dir: Rgb, file: Rgb) -> (r: Rgb)
    ensures
        r == (if is_dir {
            dir
        } else {
            file
        }),
{
    if is_dir {
        dir
    } else {
        file
    }
}

} // verus!
