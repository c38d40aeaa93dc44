//! Reading of `/`-separated paths: the final component, its extension, and
//! membership of a component.
//!
//! Empty segments and `.` segments carry no meaning in a path and are passed
//! over; a path that ends in `..` has no final component.

use vstd::prelude::*;

verus! {

/// Start of the segment that ends just before index `end`: the segment runs
/// back to the nearest separator.
pub open spec fn segment_start(p: Seq<char>, end: int) -> int
    recommends
        0 <= end <= p.len(),
    decreases end,
{
    if end <= 0 || p[end - 1] == '/' {
        end
    } else {
        segment_start(p, end - 1)
    }
}

/// End of the last meaningful segment within `p[..n]`, after trailing
/// separators and trailing `.` segments are dropped; 0 when none is left.
pub open spec fn trimmed_end(p: Seq<char>, n: int) -> int
    recommends
        0 <= n <= p.len(),
    decreases n,
{
    if n <= 0 {
        0
    } else if p[n - 1] == '/' {
        trimmed_end(p, n - 1)
    } else if p[n - 1] == '.' && (n == 1 || p[n - 2] == '/') {
        trimmed_end(p, n - 1)
    } else {
        n
    }
}

/// The text `..`.
pub open spec fn parent_segment() -> Seq<char> {
    seq!['.', '.']
}

/// The final component of `p`, if it has one.
pub open spec fn file_name(p: Seq<char>) -> Option<Seq<char>> {
    let e = trimmed_end(p, p.len() as int);
    let s = segment_start(p, e);
    if e == 0 || p.subrange(s, e) == parent_segment() {
        None
    } else {
        Some(p.subrange(s, e))
    }
}

/// Position of the last `.` within `name[..n]`, or -1 when there is none.
pub open spec fn last_dot(name: Seq<char>, n: int) -> int
    recommends
        0 <= n <= name.len(),
    decreases n,
{
    if n <= 0 {
        -1
    } else if name[n - 1] == '.' {
        n - 1
    } else {
        last_dot(name, n - 1)
    }
}

/// The extension of a file name: what follows its last `.`, unless the name
/// has no `.` or its only `.` is the first character.
pub open spec fn name_extension(name: Seq<char>) -> Option<Seq<char>> {
    let d = last_dot(name, name.len() as int);
    if d <= 0 {
        None
    } else {
        Some(name.subrange(d + 1, name.len() as int))
    }
}

/// The extension of the final component of `p`.
pub open spec fn extension(p: Seq<char>) -> Option<Seq<char>> {
    match file_name(p) {
        Some(name) => name_extension(name),
        None => None,
    }
}

/// Whether the segment `p[s..e]` is bounded by separators or the ends of `p`
/// and holds no separator itself.
pub open spec fn is_segment(p: Seq<char>, s: int, e: int) -> bool {
    &&& 0 <= s <= e <= p.len()
    &&& (s == 0 || p[s - 1] == '/')
    &&& (e == p.len() || p[e] == '/')
    &&& forall|k: int| s <= k < e ==> p[k] != '/'
}

/// Whether some component of `p` is exactly `name`.
pub open spec fn has_component(p: Seq<char>, name: Seq<char>) -> bool {
    exists|s: int, e: int| is_segment(p, s, e) && #[trigger] p.subrange(s, e) == name
}

pub proof fn lemma_segment_start_bounds(p: Seq<char>, end: int)
    requires
        0 <= end <= p.len(),
    ensures
        0 <= segment_start(p, end) <= end,
        segment_start(p, end) == 0 || p[segment_start(p, end) - 1] == '/',
        forall|k: int| segment_start(p, end) <= k < end ==> p[k] != '/',
    decreases end,
{
    if end > 0 && p[end - 1] != '/' {
        lemma_segment_start_bounds(p, end - 1);
    }
}

pub proof fn lemma_trimmed_end_bounds(p: Seq<char>, n: int)
    requires
        0 <= n <= p.len(),
    ensures
        0 <= trimmed_end(p, n) <= n,
        trimmed_end(p, n) > 0 ==> p[trimmed_end(p, n) - 1] != '/',
    decreases n,
{
    if n > 0 && (p[n - 1] == '/' || (p[n - 1] == '.' && (n == 1 || p[n - 2] == '/'))) {
        lemma_trimmed_end_bounds(p, n - 1);
    }
}

pub proof fn lemma_last_dot_bounds(name: Seq<char>, n: int)
    requires
        0 <= n <= name.len(),
    ensures
        -1 <= last_dot(name, n) < n,
        last_dot(name, n) >= 0 ==> name[last_dot(name, n)] == '.',
        forall|k: int| last_dot(name, n) < k < n ==> name[k] != '.',
    decreases n,
{
    if n > 0 && name[n - 1] != '.' {
        lemma_last_dot_bounds(name, n - 1);
    }
}

/// Bounds of the final component of `p`: `Some((s, e))` when it is
/// `p[s..e]`.
pub fn file_name_bounds(p: &Vec<char>) -> (r: Option<(usize, usize)>)
    ensures
        match r {
            Some((s, e)) => s < e <= p.len() && file_name(p@) == Some(
                p@.subrange(s as int, e as int),
            ),
            None => file_name(p@).is_none(),
        },
{
    let mut e: usize = p.len();
    while e > 0 && (p[e - 1] == '/' || (p[e - 1] == '.' && (e == 1 || p[e - 2] == '/')))
        invariant
            e <= p.len(),
            trimmed_end(p@, p.len() as int) == trimmed_end(p@, e as int),
        decreases e,
    {
        e = e - 1;
    }
    let mut s: usize = e;
    while s > 0 && p[s - 1] != '/'
        invariant
            s <= e <= p.len(),
            segment_start(p@, e as int) == segment_start(p@, s as int),
        decreases s,
    {
        s = s - 1;
    }
    if e == 0 {
        return None;
    }
    if e - s == 2 && p[s] == '.' && p[s + 1] == '.' {
        assert(p@.subrange(s as int, e as int) =~= parent_segment());
        return None;
    }
    assert(p@.subrange(s as int, e as int) != parent_segment()) by {
        if p@.subrange(s as int, e as int) == parent_segment() {
            assert(p@.subrange(s as int, e as int).len() == 2);
            assert(p@.subrange(s as int, e as int)[0] == '.');
            assert(p@.subrange(s as int, e as int)[1] == '.');
        }
    }
    proof {
        lemma_trimmed_end_bounds(p@, p.len() as int);
        lemma_segment_start_bounds(p@, e as int);
    }
    Some((s, e))
}

/// Start of the extension within the name `p[s..e]`: `Some(x)` when the
/// extension is `p[x..e]`.
pub fn extension_start(p: &Vec<char>, s: usize, e: usize) -> (r: Option<usize>)
    requires
        s <= e <= p.len(),
    ensures
        match r {
            Some(x) => s < x <= e && name_extension(p@.subrange(s as int, e as int)) == Some(
                p@.subrange(x as int, e as int),
            ),
            None => name_extension(p@.subrange(s as int, e as int)).is_none(),
        },
{
    let ghost name = p@.subrange(s as int, e as int);
    let mut i: usize = e;
    while i > s && p[i - 1] != '.'
        invariant
            s <= i <= e <= p.len(),
            name == p@.subrange(s as int, e as int),
            last_dot(name, name.len() as int) == last_dot(name, i - s),
        decreases i,
    {
        assert(name[i - 1 - s] == p@[i - 1]);
        i = i - 1;
    }
    if i > s {
        assert(name[i - 1 - s] == p@[i - 1]);
    }
    if i - s <= 1 {
        return None;
    }
    assert(name.subrange(i - s, name.len() as int) =~= p@.subrange(i as int, e as int));
    Some(i)
}

/// A run without separators that begins at a boundary is the segment that
/// `segment_start` finds from its end.
pub proof fn lemma_segment_start_unique(p: Seq<char>, s: int, e: int)
    requires
        0 <= s <= e <= p.len(),
        s == 0 || p[s - 1] == '/',
        forall|k: int| s <= k < e ==> p[k] != '/',
    ensures
        segment_start(p, e) == s,
    decreases e - s,
{
    if e > s {
        lemma_segment_start_unique(p, s, e - 1);
    }
}

/// Whether `p[s..e]` spells `name`.
pub fn range_is(p: &Vec<char>, s: usize, e: usize, name: &Vec<char>) -> (r: bool)
    requires
        s <= e <= p.len(),
    ensures
        r == (p@.subrange(s as int, e as int) == name@),
{
    if e - s != name.len() {
        return false;
    }
    let ghost seg = p@.subrange(s as int, e as int);
    let mut i: usize = 0;
    while i < name.len()
        invariant
            s <= e <= p.len(),
            e - s == name.len(),
            i <= name.len(),
            seg == p@.subrange(s as int, e as int),
            forall|k: int| 0 <= k < i ==> seg[k] == name@[k],
        decreases name.len() - i,
    {
        if p[s + i] != name[i] {
            assert(seg[i as int] != name@[i as int]);
            return false;
        }
        i = i + 1;
    }
    assert(seg =~= name@);
    true
}

/// Whether some component of `p` is exactly `name`.
pub fn contains_component(p: &Vec<char>, name: &Vec<char>) -> (r: bool)
    ensures
        r == has_component(p@, name@),
{
    let n: usize = p.len();
    let mut start: usize = 0;
    let mut i: usize = 0;
    while i < n
        invariant
            start <= i <= n,
            n == p.len(),
            start == segment_start(p@, i as int),
            forall|e: int|
                0 <= e < i && p@[e] == '/' ==> #[trigger] p@.subrange(segment_start(p@, e), e)
                    != name@,
        decreases n - i,
    {
        if p[i] == '/' {
            if range_is(p, start, i, name) {
                proof {
                    lemma_segment_start_bounds(p@, i as int);
                    assert(is_segment(p@, start as int, i as int));
                }
                return true;
            }
            start = i + 1;
        }
        i = i + 1;
    }
    if range_is(p, start, n, name) {
        proof {
            lemma_segment_start_bounds(p@, n as int);
            assert(is_segment(p@, start as int, n as int));
        }
        return true;
    }
    assert(!has_component(p@, name@)) by {
        if has_component(p@, name@) {
            let (s, e): (int, int) = choose|s: int, e: int|
                is_segment(p@, s, e) && #[trigger] p@.subrange(s, e) == name@;
            lemma_segment_start_unique(p@, s, e);
        }
    }
    false
}

} // verus!
