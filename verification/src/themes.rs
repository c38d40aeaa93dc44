//! Colour themes of the listings.

use vstd::prelude::*;
use vstd::string::StringExecFns;
use crate::text::{chars_of, string_of_range, text_eq};

verus! {

/// A colour as red, green and blue.
#[derive(Clone, Copy, Debug, PartialEq, Eq, Structural)]
pub struct Rgb(pub u8, pub u8, pub u8);

/// The colours of one theme, by the part of a listing that they paint.
#[derive(Clone, Debug)]
pub struct Theme {
    pub name: String,
    pub description: String,
    pub header: Rgb,
    pub border: Rgb,
    pub row_number: Rgb,
    pub file_name: Rgb,
    pub dir_name: Rgb,
    pub file_type: Rgb,
    pub dir_type: Rgb,
    pub file_size: Rgb,
    pub dir_size: Rgb,
    pub modified: Rgb,
    pub permissions: Rgb,
}

/// Position of the first theme among the first `n` that is called `name`,
/// or `n` when there is none.
pub open spec fn theme_position(themes: Seq<Theme>, name: Seq<char>, n: int) -> int
    decreases n,
{
    if n <= 0 {
        0
    } else {
        let k = theme_position(themes, name, n - 1);
        if k < n - 1 || themes[n - 1].name@ == name {
            k
        } else {
            n
        }
    }
}

/// The first theme called `name` is called so, and no theme before it is.
pub proof fn lemma_theme_position(themes: Seq<Theme>, name: Seq<char>, n: int)
    requires
        0 <= n <= themes.len(),
    ensures
        0 <= theme_position(themes, name, n) <= n,
        theme_position(themes, name, n) < n ==> themes[theme_position(themes, name, n)].name@
            == name,
        forall|j: int|
            0 <= j < theme_position(themes, name, n) ==> (#[trigger] themes[j]).name@ != name,
    decreases n,
{
    if n > 0 {
        lemma_theme_position(themes, name, n - 1);
    }
}

proof fn lemma_theme_position_stays(themes: Seq<Theme>, name: Seq<char>, m: int, n: int)
    requires
        0 <= m <= n <= themes.len(),
        theme_position(themes, name, m) < m,
    ensures
        theme_position(themes, name, n) == theme_position(themes, name, m),
    decreases n - m,
{
    if n > m {
        lemma_theme_position_stays(themes, name, m, n - 1);
    }
}

/// Finds the first theme called `name`.
pub fn find_theme(themes: &Vec<Theme>, name: &str) -> (r: Option<usize>)
    ensures
        match r {
            Some(i) => i < themes.len() && i == theme_position(
                themes@,
                name@,
                themes.len() as int,
            ),
            None => theme_position(themes@, name@, themes.len() as int) == themes.len(),
        },
{
    let mut i: usize = 0;
    while i < themes.len()
        invariant
            i <= themes.len(),
            theme_position(themes@, name@, i as int) == i,
        decreases themes.len() - i,
    {
        if text_eq(themes[i].name.as_str(), name) {
            proof {
                lemma_theme_position_stays(themes@, name@, i + 1, themes.len() as int);
            }
            return Some(i);
        }
        i = i + 1;
    }
    None
}

/// What separates the name of a theme from its description in a choice.
pub open spec fn choice_separator() -> Seq<char> {
    seq![' ', '-', ' ']
}

/// The line that offers a theme for choice: its name, the separator, its
/// description.
pub open spec fn choice_text(theme: Theme) -> Seq<char> {
    theme.name@ + choice_separator() + theme.description@
}

/// Whether the separator stands at position `i` of `s`.
pub open spec fn separator_at(s: Seq<char>, i: int) -> bool {
    0 <= i && i + 3 <= s.len() && s[i] == ' ' && s[i + 1] == '-' && s[i + 2] == ' '
}

/// Position of the first separator at or after `from`, or the length of
/// `s` when there is none.
pub open spec fn separator_position(s: Seq<char>, from: int) -> int
    decreases s.len() - from,
{
    if from < 0 || from >= s.len() {
        s.len() as int
    } else if separator_at(s, from) {
        from
    } else {
        separator_position(s, from + 1)
    }
}

/// The name in a chosen line: what stands before the first separator, or
/// the whole line when it holds none.
pub open spec fn chosen_text(selection: Seq<char>) -> Seq<char> {
    selection.subrange(0, separator_position(selection, 0))
}

/// The line that offers `theme` for choice.
pub fn choice_label(theme: &Theme) -> (r: String)
    ensures
        r@ == choice_text(*theme),
{
    let mut out = String::from_str(theme.name.as_str());
    out.push(' ');
    out.push('-');
    out.push(' ');
    out.append(theme.description.as_str());
    assert(out@ =~= choice_text(*theme));
    out
}

/// The name of the theme in a chosen line.
pub fn chosen_name(selection: &str) -> (r: String)
    ensures
        r@ == chosen_text(selection@),
{
    let v = chars_of(selection);
    let n: usize = v.len();
    let mut i: usize = 0;
    while i < n && !(n - i >= 3 && v[i] == ' ' && v[i + 1] == '-' && v[i + 2] == ' ')
        invariant
            i <= n,
            n == v.len(),
            separator_position(v@, 0) == separator_position(v@, i as int),
        decreases n - i,
    {
        i = i + 1;
    }
    proof {
        if i < n {
            assert(separator_at(v@, i as int));
        }
    }
    string_of_range(&v, 0, i)
}

} // verus!
