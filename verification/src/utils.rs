//! Formatting helpers of the listings: sizes, ages, permission bits, and
//! the colouring of table borders.

use vstd::prelude::*;
use vstd::string::StringExecFns;
use crate::text::{chars_of, decimal, digit, digit_char, push_decimal};
use crate::themes::{Rgb, Theme};

verus! {

/// Bytes in a kilobyte.
pub const KB: u64 = 1024;

/// Bytes in a megabyte.
pub const MB: u64 = 1_048_576;

/// Bytes in a gigabyte.
pub const GB: u64 = 1_073_741_824;

/// The first integer that a 64-bit float cannot tell from its neighbours:
/// two to the power 53.
pub const FLOAT_EXACT_LIMIT: u64 = 9_007_199_254_740_992;

/// `num / den` rounded to the nearest integer, a tie going to the even one.
pub open spec fn round_half_even(num: nat, den: nat) -> nat
    recommends
        den > 0,
{
    let q = num / den;
    let r = num % den;
    if 2 * r > den || (2 * r == den && q % 2 == 1) {
        q + 1
    } else {
        q
    }
}

/// The distance between neighbouring 64-bit floats at the magnitude of `n`:
/// 1 below two to the 53, and doubling with each further bit.
pub open spec fn float_spacing(n: nat) -> nat
    decreases n,
{
    if n < FLOAT_EXACT_LIMIT {
        1
    } else {
        2 * float_spacing(n / 2)
    }
}

/// The value that `n` has once it is held in a 64-bit float: the nearest
/// multiple of the spacing, a tie going to the even one.
pub open spec fn float_of(n: nat) -> nat {
    round_half_even(n, float_spacing(n)) * float_spacing(n)
}

/// `size / unit` in tenths, as a size is shown: the size is first held in
/// a 64-bit float, and the quotient is rounded to one decimal place, a tie
/// going to the even digit.
pub open spec fn tenths(size: nat, unit: nat) -> nat
    recommends
        unit > 0,
{
    round_half_even(float_of(size) * 10, unit)
}

/// A count of tenths written with one decimal place.
pub open spec fn one_decimal(t: nat) -> Seq<char> {
    decimal(t / 10) + seq!['.', digit_char(t % 10)]
}

/// A size as a listing shows it: in the largest unit that it reaches, with
/// one decimal place, or in whole bytes below a kilobyte.
pub open spec fn size_text(size: nat) -> Seq<char> {
    if size >= GB {
        one_decimal(tenths(size, GB as nat)) + " GB"@
    } else if size >= MB {
        one_decimal(tenths(size, MB as nat)) + " MB"@
    } else if size >= KB {
        one_decimal(tenths(size, KB as nat)) + " KB"@
    } else {
        decimal(size) + " B"@
    }
}

proof fn lemma_spacing_step(d: nat, m: nat)
    requires
        m >= FLOAT_EXACT_LIMIT,
    ensures
        d * float_spacing(m) == (2 * d) * float_spacing(m / 2),
        (2 * d) * (m / 2) <= d * m,
{
    let x = float_spacing(m / 2);
    assert(d * (2 * x) == (2 * d) * x) by (nonlinear_arith);
    assert((2 * d) * (m / 2) <= d * m) by (nonlinear_arith);
}

/// The distance between neighbouring floats at the magnitude of `n`.
pub fn spacing_of(n: u64) -> (d: u64)
    ensures
        d == float_spacing(n as nat),
        1 <= d <= 4096,
{
    let mut m: u64 = n;
    let mut d: u64 = 1;
    while m >= FLOAT_EXACT_LIMIT
        invariant
            1 <= d,
            d * m <= n,
            d == 1 || d * (FLOAT_EXACT_LIMIT / 2) <= n,
            float_spacing(n as nat) == d * float_spacing(m as nat),
        decreases m,
    {
        proof {
            lemma_spacing_step(d as nat, m as nat);
            assert(d * FLOAT_EXACT_LIMIT <= d * m) by (nonlinear_arith)
                requires
                    m >= FLOAT_EXACT_LIMIT,
                    d >= 1,
            ;
            assert((2 * d) * (FLOAT_EXACT_LIMIT / 2) == d * FLOAT_EXACT_LIMIT) by (nonlinear_arith);
        }
        m = m / 2;
        d = d * 2;
    }
    proof {
        if d > 4096 {
            assert(d * (FLOAT_EXACT_LIMIT / 2) > u64::MAX) by (nonlinear_arith)
                requires
                    d >= 4097,
            ;
        }
        assert(d * 1 == d) by (nonlinear_arith);
    }
    d
}

/// `num / den` rounded to the nearest integer, a tie going to the even one.
pub fn divide_half_even(num: u128, den: u128) -> (r: u128)
    requires
        den > 0,
        2 * den <= u128::MAX,
    ensures
        r == round_half_even(num as nat, den as nat),
{
    let q: u128 = num / den;
    let rem: u128 = num % den;
    if 2 * rem > den || (2 * rem == den && q % 2 == 1) {
        assert(q < u128::MAX) by (nonlinear_arith)
            requires
                q == num / den,
                den > 0,
                rem == num % den,
                rem > 0,
                num <= u128::MAX,
        {
            assert(num == den * (num / den) + num % den) by (nonlinear_arith)
                requires
                    den > 0,
            ;
        }
        q + 1
    } else {
        q
    }
}

/// `size / unit` in tenths, as a size is shown.
pub fn tenths_of(size: u64, unit: u64) -> (t: u64)
    requires
        unit >= 16,
    ensures
        t == tenths(size as nat, unit as nat),
{
    let d: u64 = spacing_of(size);
    let steps: u128 = divide_half_even(size as u128, d as u128);
    assert(steps * d <= size + d) by (nonlinear_arith)
        requires
            d > 0,
            steps <= size / d + 1,
    {
        assert(size == d * (size / d) + size % d) by (nonlinear_arith)
            requires
                d > 0,
        ;
    }
    let held: u128 = steps * (d as u128);
    let t: u128 = divide_half_even(held * 10, unit as u128);
    assert(t <= u64::MAX) by (nonlinear_arith)
        requires
            t <= (held * 10) / (unit as int) + 1,
            held <= u64::MAX + 4096,
            unit >= 16,
    ;
    t as u64
}

/// Appends a count of tenths with one decimal place.
pub fn push_one_decimal(out: &mut String, t: u64)
    ensures
        final(out)@ == old(out)@ + one_decimal(t as nat),
{
    push_decimal(out, t / 10);
    out.push('.');
    out.push(digit(t % 10));
    assert(out@ =~= old(out)@ + one_decimal(t as nat));
}

/// Formats a size in bytes for a listing.
pub fn format_size(size: u64) -> (r: String)
    ensures
        r@ == size_text(size as nat),
{
    let mut out = String::new();
    if size >= GB {
        push_one_decimal(&mut out, tenths_of(size, GB));
        out.append(" GB");
    } else if size >= MB {
        push_one_decimal(&mut out, tenths_of(size, MB));
        out.append(" MB");
    } else if size >= KB {
        push_one_decimal(&mut out, tenths_of(size, KB));
        out.append(" KB");
    } else {
        push_decimal(&mut out, size);
        out.append(" B");
    }
    assert(out@ =~= size_text(size as nat));
    out
}

/// The sign of one permission bit: `c` when the bit is set, a dash when
/// it is not.
pub open spec fn permission_char(mode: u32, bit: u32, c: char) -> char {
    if mode & bit != 0 {
        c
    } else {
        '-'
    }
}

/// The nine permission signs of a file mode: read, write and execute for
/// the owner, the group and the others.
pub open spec fn permissions_text(mode: u32) -> Seq<char> {
    seq![
        permission_char(mode, 0o400, 'r'),
        permission_char(mode, 0o200, 'w'),
        permission_char(mode, 0o100, 'x'),
        permission_char(mode, 0o040, 'r'),
        permission_char(mode, 0o020, 'w'),
        permission_char(mode, 0o010, 'x'),
        permission_char(mode, 0o004, 'r'),
        permission_char(mode, 0o002, 'w'),
        permission_char(mode, 0o001, 'x'),
    ]
}

/// The sign of one permission bit.
pub fn permission_sign(mode: u32, bit: u32, c: char) -> (r: char)
    ensures
        r == permission_char(mode, bit, c),
{
    if mode & bit != 0 {
        c
    } else {
        '-'
    }
}

/// Formats the permission bits of a file mode, as in `rwxr-xr--`.
pub fn format_permissions(mode: u32) -> (r: String)
    ensures
        r@ == permissions_text(mode),
{
    let mut out = String::new();
    out.push(permission_sign(mode, 0o400, 'r'));
    out.push(permission_sign(mode, 0o200, 'w'));
    out.push(permission_sign(mode, 0o100, 'x'));
    out.push(permission_sign(mode, 0o040, 'r'));
    out.push(permission_sign(mode, 0o020, 'w'));
    out.push(permission_sign(mode, 0o010, 'x'));
    out.push(permission_sign(mode, 0o004, 'r'));
    out.push(permission_sign(mode, 0o002, 'w'));
    out.push(permission_sign(mode, 0o001, 'x'));
    assert(out@ =~= permissions_text(mode));
    out
}

/// Seconds in a minute.
pub const MINUTE: u64 = 60;

/// Seconds in an hour.
pub const HOUR: u64 = 3600;

/// Seconds in a day.
pub const DAY: u64 = 86_400;

/// Seconds in a week.
pub const WEEK: u64 = 604_800;

/// The largest count of seconds that a `chrono` duration holds.
pub open spec fn max_duration_seconds() -> int {
    i64::MAX / 1000
}

/// Calls `chrono::Duration::minutes` and converts the result with
/// `to_std`. For a count that is not negative and within the range of the
/// duration type, the first makes a duration of sixty seconds per minute
/// and the second keeps its seconds.
#[verifier::external_body]
fn minutes_in_seconds(n: i64) -> (r: u64)
    requires
        0 <= n,
        n * 60 <= max_duration_seconds(),
    ensures
        r == n * 60,
{
    chrono::Duration::minutes(n).to_std().unwrap().as_secs()
}

/// Calls `chrono::Duration::hours` and converts the result with `to_std`:
/// 3600 seconds per hour, for a count that is not negative and in range.
#[verifier::external_body]
fn hours_in_seconds(n: i64) -> (r: u64)
    requires
        0 <= n,
        n * 3600 <= max_duration_seconds(),
    ensures
        r == n * 3600,
{
    chrono::Duration::hours(n).to_std().unwrap().as_secs()
}

/// Calls `chrono::Duration::days` and converts the result with `to_std`:
/// 86400 seconds per day, for a count that is not negative and in range.
#[verifier::external_body]
fn days_in_seconds(n: i64) -> (r: u64)
    requires
        0 <= n,
        n * 86_400 <= max_duration_seconds(),
    ensures
        r == n * 86_400,
{
    chrono::Duration::days(n).to_std().unwrap().as_secs()
}

/// Calls `chrono::Duration::weeks` and converts the result with `to_std`:
/// 604800 seconds per week, for a count that is not negative and in range.
#[verifier::external_body]
fn weeks_in_seconds(n: i64) -> (r: u64)
    requires
        0 <= n,
        n * 604_800 <= max_duration_seconds(),
    ensures
        r == n * 604_800,
{
    chrono::Duration::weeks(n).to_std().unwrap().as_secs()
}

/// An age as a listing shows it: a whole count of the largest unit that
/// the age has reached, from seconds up to years. A month counts thirty
/// days and a year 365. An age that is not known, because the time lies
/// ahead of the clock, reads `Unknown`.
pub open spec fn age_text(elapsed: Option<nat>) -> Seq<char> {
    match elapsed {
        None => "Unknown"@,
        Some(s) => if s < MINUTE {
            decimal(s) + " seconds ago"@
        } else if s < HOUR {
            decimal(s / 60) + " minutes ago"@
        } else if s < DAY {
            decimal(s / 3600) + " hours ago"@
        } else if s < WEEK {
            decimal(s / 86_400) + " days ago"@
        } else if s < 4 * WEEK {
            decimal(s / 604_800) + " weeks ago"@
        } else if s < 365 * DAY {
            decimal(s / 2_592_000) + " months ago"@
        } else {
            decimal(s / 31_536_000) + " years ago"@
        },
    }
}

/// An age as a mathematical value.
pub open spec fn age_value(elapsed: Option<u64>) -> Option<nat> {
    match elapsed {
        Some(s) => Some(s as nat),
        None => None,
    }
}

/// Formats the age of a time for a listing. `elapsed` is the whole count
/// of seconds from that time to now, or `None` when the time lies ahead of
/// the clock.
pub fn format_time(elapsed: Option<u64>) -> (r: String)
    ensures
        r@ == age_text(age_value(elapsed)),
{
    let mut out = String::new();
    match elapsed {
        None => {
            out.append("Unknown");
        },
        Some(s) => {
            if s < minutes_in_seconds(1) {
                push_decimal(&mut out, s);
                out.append(" seconds ago");
            } else if s < hours_in_seconds(1) {
                push_decimal(&mut out, s / 60);
                out.append(" minutes ago");
            } else if s < days_in_seconds(1) {
                push_decimal(&mut out, s / 3600);
                out.append(" hours ago");
            } else if s < weeks_in_seconds(1) {
                push_decimal(&mut out, s / (3600 * 24));
                out.append(" days ago");
            } else if s < weeks_in_seconds(4) {
                push_decimal(&mut out, s / (3600 * 24 * 7));
                out.append(" weeks ago");
            } else if s < days_in_seconds(365) {
                push_decimal(&mut out, s / (3600 * 24 * 30));
                out.append(" months ago");
            } else {
                push_decimal(&mut out, s / (3600 * 24 * 365));
                out.append(" years ago");
            }
        },
    }
    assert(out@ =~= age_text(age_value(elapsed)));
    out
}

/// Whether `c` is one of the box-drawing characters that tables are
/// framed with.
pub open spec fn is_border(c: char) -> bool {
    c == '╭' || c == '╮' || c == '╰' || c == '╯' || c == '│' || c == '─' || c == '┼' || c == '├'
        || c == '┤' || c == '┬' || c == '┴' || c == '═' || c == '╞' || c == '╡'
}

/// The escape sequence that switches the foreground to a colour.
pub open spec fn color_code(color: Rgb) -> Seq<char> {
    "\x1b[38;2;"@ + decimal(color.0 as nat) + seq![';'] + decimal(color.1 as nat) + seq![';']
        + decimal(color.2 as nat) + seq!['m']
}

/// The escape sequence that switches colours off.
pub open spec fn reset_code() -> Seq<char> {
    "\x1b[0m"@
}

/// A character as it is painted: a border character between the colour
/// code and the reset code, any other character as it is.
pub open spec fn painted_char(c: char, code: Seq<char>) -> Seq<char> {
    if is_border(c) {
        code + seq![c] + reset_code()
    } else {
        seq![c]
    }
}

/// A line with each of its characters painted.
pub open spec fn painted(line: Seq<char>, code: Seq<char>) -> Seq<char>
    decreases line.len(),
{
    if line.len() == 0 {
        Seq::empty()
    } else {
        painted(line.drop_last(), code) + painted_char(line.last(), code)
    }
}

/// Position of the first line feed at or after `from`, or the length of
/// `s` when there is none.
pub open spec fn line_end(s: Seq<char>, from: int) -> int
    decreases s.len() - from,
{
    if from >= s.len() {
        s.len() as int
    } else if s[from] == '\n' {
        from
    } else {
        line_end(s, from + 1)
    }
}

/// A line without the carriage return that ends it, if one does.
pub open spec fn without_return(line: Seq<char>) -> Seq<char> {
    if line.len() > 0 && line.last() == '\r' {
        line.drop_last()
    } else {
        line
    }
}

/// The lines of `s` from position `from` on. A line ends at a line feed,
/// which is left out together with a carriage return just before it. What
/// follows the last line feed is a line as it stands, unless it is empty.
pub open spec fn lines_from(s: Seq<char>, from: int) -> Seq<Seq<char>>
    decreases s.len() - from,
    via lines_from_decreases
{
    if from < 0 || from >= s.len() {
        Seq::empty()
    } else {
        let e = line_end(s, from);
        if e >= s.len() {
            seq![s.subrange(from, s.len() as int)]
        } else {
            seq![without_return(s.subrange(from, e))] + lines_from(s, e + 1)
        }
    }
}

#[via_fn]
proof fn lines_from_decreases(s: Seq<char>, from: int) {
    if 0 <= from < s.len() {
        lemma_line_end_bounds(s, from);
    }
}

/// The lines of `s`.
pub open spec fn lines(s: Seq<char>) -> Seq<Seq<char>> {
    lines_from(s, 0)
}

/// The lines joined with one line feed between neighbours.
pub open spec fn join_lines(lines: Seq<Seq<char>>) -> Seq<char>
    decreases lines.len(),
{
    if lines.len() == 0 {
        Seq::empty()
    } else if lines.len() == 1 {
        lines[0]
    } else {
        join_lines(lines.drop_last()) + seq!['\n'] + lines.last()
    }
}

/// Each of the lines painted.
pub open spec fn painted_lines(lines: Seq<Seq<char>>, code: Seq<char>) -> Seq<Seq<char>> {
    Seq::new(lines.len(), |i: int| painted(lines[i], code))
}

/// A rendered table with its border characters in the border colour: the
/// lines of the table, each painted, joined by line feeds.
pub open spec fn colorized(table: Seq<char>, border: Rgb) -> Seq<char> {
    join_lines(painted_lines(lines(table), color_code(border)))
}

pub proof fn lemma_line_end_bounds(s: Seq<char>, from: int)
    requires
        0 <= from <= s.len(),
    ensures
        from <= line_end(s, from) <= s.len(),
        line_end(s, from) < s.len() ==> s[line_end(s, from)] == '\n',
    decreases s.len() - from,
{
    if from < s.len() && s[from] != '\n' {
        lemma_line_end_bounds(s, from + 1);
    }
}

/// Whether `c` is a box-drawing character of a table frame.
pub fn border_char(c: char) -> (r: bool)
    ensures
        r == is_border(c),
{
    c == '╭' || c == '╮' || c == '╰' || c == '╯' || c == '│' || c == '─' || c == '┼' || c == '├'
        || c == '┤' || c == '┬' || c == '┴' || c == '═' || c == '╞' || c == '╡'
}

/// The escape sequence that switches the foreground to `color`.
pub fn foreground_code(color: Rgb) -> (r: String)
    ensures
        r@ == color_code(color),
{
    let mut out = String::new();
    out.append("\x1b[38;2;");
    push_decimal(&mut out, color.0 as u64);
    out.push(';');
    push_decimal(&mut out, color.1 as u64);
    out.push(';');
    push_decimal(&mut out, color.2 as u64);
    out.push('m');
    assert(out@ =~= color_code(color));
    out
}

/// Appends the characters `v[from..to]`, painted, to `out`.
pub fn push_painted(out: &mut String, v: &Vec<char>, from: usize, to: usize, code: &str)
    requires
        from <= to <= v.len(),
    ensures
        final(out)@ == old(out)@ + painted(v@.subrange(from as int, to as int), code@),
{
    let mut i: usize = from;
    assert(v@.subrange(from as int, from as int) =~= Seq::<char>::empty());
    assert(out@ =~= old(out)@ + painted(v@.subrange(from as int, i as int), code@));
    while i < to
        invariant
            from <= i <= to <= v.len(),
            out@ == old(out)@ + painted(v@.subrange(from as int, i as int), code@),
        decreases to - i,
    {
        let ghost before = out@;
        let c = v[i];
        if border_char(c) {
            out.append(code);
            out.push(c);
            out.append("\x1b[0m");
        } else {
            out.push(c);
        }
        assert(out@ =~= before + painted_char(c, code@));
        assert(v@.subrange(from as int, i + 1).drop_last() =~= v@.subrange(from as int, i as int));
        assert(v@.subrange(from as int, i + 1).last() == c);
        assert(out@ =~= old(out)@ + painted(v@.subrange(from as int, i + 1), code@));
        i = i + 1;
    }
}

/// The texts that a vector of ranges cuts out of `s`.
pub open spec fn cut(s: Seq<char>, ranges: Seq<(usize, usize)>) -> Seq<Seq<char>> {
    Seq::new(ranges.len(), |i: int| s.subrange(ranges[i].0 as int, ranges[i].1 as int))
}

/// Whether every range lies within a text of length `n`.
pub open spec fn ranges_within(ranges: Seq<(usize, usize)>, n: int) -> bool {
    forall|i: int| 0 <= i < ranges.len() ==> (#[trigger] ranges[i]).0 <= ranges[i].1 <= n
}

/// Where the lines of `v` lie: one range per line, in order.
pub fn line_ranges(v: &Vec<char>) -> (r: Vec<(usize, usize)>)
    ensures
        ranges_within(r@, v.len() as int),
        cut(v@, r@) == lines(v@),
{
    let n: usize = v.len();
    let mut out: Vec<(usize, usize)> = Vec::new();
    let mut start: usize = 0;
    assert(lines(v@) =~= cut(v@, out@) + lines_from(v@, 0));
    while start < n
        invariant
            start <= n,
            n == v.len(),
            ranges_within(out@, n as int),
            lines(v@) == cut(v@, out@) + lines_from(v@, start as int),
        decreases n - start,
    {
        let mut e: usize = start;
        while e < n && v[e] != '\n'
            invariant
                start <= e <= n,
                n == v.len(),
                line_end(v@, start as int) == line_end(v@, e as int),
            decreases n - e,
        {
            e = e + 1;
        }
        let stop: usize = if e < n && e > start && v[e - 1] == '\r' {
            e - 1
        } else {
            e
        };
        let next: usize = if e < n {
            e + 1
        } else {
            n
        };
        let ghost before = out@;
        out.push((start, stop));
        proof {
            let line = v@.subrange(start as int, stop as int);
            let raw = v@.subrange(start as int, e as int);
            if e < n {
                assert(line =~= without_return(raw));
            } else {
                assert(line =~= raw);
                assert(lines_from(v@, n as int) =~= Seq::<Seq<char>>::empty());
            }
            assert(lines_from(v@, start as int) =~= seq![line] + lines_from(v@, next as int));
            assert(cut(v@, out@) =~= cut(v@, before).push(line));
            assert(cut(v@, out@) + lines_from(v@, next as int) =~= cut(v@, before) + lines_from(
                v@,
                start as int,
            ));
        }
        start = next;
    }
    assert(lines_from(v@, n as int) =~= Seq::<Seq<char>>::empty());
    assert(cut(v@, out@) + Seq::<Seq<char>>::empty() =~= cut(v@, out@));
    out
}

/// Paints the border characters of a rendered table in the border colour
/// of `theme`. Line breaks of either kind become single line feeds, and a
/// line break at the very end is dropped.
pub fn colorize_borders(table_str: &str, theme: &Theme) -> (r: String)
    ensures
        r@ == colorized(table_str@, theme.border),
{
    let v = chars_of(table_str);
    let code = foreground_code(theme.border);
    let ranges = line_ranges(&v);
    let ghost all = lines(v@);
    let mut out = String::new();
    let mut i: usize = 0;
    assert(painted_lines(all.take(0), code@) =~= Seq::<Seq<char>>::empty());
    while i < ranges.len()
        invariant
            i <= ranges.len(),
            all == lines(v@),
            ranges_within(ranges@, v.len() as int),
            cut(v@, ranges@) == all,
            out@ == join_lines(painted_lines(all.take(i as int), code@)),
        decreases ranges.len() - i,
    {
        let (from, to) = ranges[i];
        assert(all[i as int] == cut(v@, ranges@)[i as int]);
        if i > 0 {
            out.push('\n');
        }
        push_painted(&mut out, &v, from, to, code.as_str());
        proof {
            let done = painted_lines(all.take(i as int), code@);
            let grown = painted_lines(all.take(i + 1), code@);
            assert(grown.drop_last() =~= done);
            assert(grown.last() == painted(all[i as int], code@));
            if i == 0 {
                assert(out@ =~= painted(all[0], code@));
            }
        }
        i = i + 1;
    }
    assert(all.take(i as int) =~= all);
    out
}

} // verus!
