//! Icons of files and directories, chosen from an icon theme by extension
//! or by name.

use vstd::prelude::*;
use crate::classify::classified_name;
use crate::paths::{extension, extension_start, file_name_bounds};
use crate::text::{chars_of, lowercase_of, string_of_range, text_eq, to_lowercase};

verus! {

/// One rule of an icon theme: the lowercase key and the icon that goes
/// with it.
#[derive(Debug)]
pub struct IconRule {
    pub key: String,
    pub icon: String,
}

/// An icon theme: an icon for directories, one for files that no rule
/// covers, and rules by extension and by file name.
#[derive(Debug)]
pub struct IconTheme {
    pub dir: String,
    pub file: String,
    pub extension: Vec<IconRule>,
    pub name: Vec<IconRule>,
}

/// Position of the first rule among the first `n` whose key is `key`, or
/// `n` when there is none.
pub open spec fn first_rule(rules: Seq<IconRule>, key: Seq<char>, n: int) -> int
    decreases n,
{
    if n <= 0 {
        0
    } else {
        let k = first_rule(rules, key, n - 1);
        if k < n - 1 || rules[n - 1].key@ == key {
            k
        } else {
            n
        }
    }
}

/// The icon that the rules give for `key`: that of the first rule with
/// this key.
pub open spec fn rule_icon(rules: Seq<IconRule>, key: Seq<char>) -> Option<Seq<char>> {
    let k = first_rule(rules, key, rules.len() as int);
    if k < rules.len() {
        Some(rules[k].icon@)
    } else {
        None
    }
}

/// The icon of a path: the directory icon for a directory; for a file with
/// an extension the icon of its lowercased extension; for a file without
/// one the icon of its lowercased name; the plain file icon where no rule
/// applies.
pub open spec fn icon_text(theme: IconTheme, path: Seq<char>, is_dir: bool) -> Seq<char> {
    if is_dir {
        theme.dir@
    } else {
        let found = match extension(path) {
            Some(ext) => rule_icon(theme.extension@, lowercase_of(ext)),
            None => rule_icon(theme.name@, lowercase_of(classified_name(path))),
        };
        match found {
            Some(icon) => icon,
            None => theme.file@,
        }
    }
}

/// The first rule with a key is a rule with that key, and no rule before
/// it has it.
pub proof fn lemma_first_rule(rules: Seq<IconRule>, key: Seq<char>, n: int)
    requires
        0 <= n <= rules.len(),
    ensures
        0 <= first_rule(rules, key, n) <= n,
        first_rule(rules, key, n) < n ==> rules[first_rule(rules, key, n)].key@ == key,
        forall|j: int| 0 <= j < first_rule(rules, key, n) ==> (#[trigger] rules[j]).key@ != key,
    decreases n,
{
    if n > 0 {
        lemma_first_rule(rules, key, n - 1);
    }
}

proof fn lemma_first_rule_stays(rules: Seq<IconRule>, key: Seq<char>, m: int, n: int)
    requires
        0 <= m <= n <= rules.len(),
        first_rule(rules, key, m) < m,
    ensures
        first_rule(rules, key, n) == first_rule(rules, key, m),
    decreases n - m,
{
    if n > m {
        lemma_first_rule_stays(rules, key, m, n - 1);
    }
}

/// Looks `key` up in the rules.
pub fn find_icon<'a>(rules: &'a Vec<IconRule>, key: &str) -> (r: Option<&'a str>)
    ensures
        match r {
            Some(icon) => rule_icon(rules@, key@) == Some(icon@),
            None => rule_icon(rules@, key@).is_none(),
        },
{
    let mut i: usize = 0;
    while i < rules.len()
        invariant
            i <= rules.len(),
            first_rule(rules@, key@, i as int) == i,
        decreases rules.len() - i,
    {
        if text_eq(rules[i].key.as_str(), key) {
            proof {
                lemma_first_rule_stays(rules@, key@, i + 1, rules.len() as int);
            }
            return Some(rules[i].icon.as_str());
        }
        i = i + 1;
    }
    None
}

/// The icon for a path. Whether the path is a directory is the caller's
/// knowledge; the rest is read off the text of the path.
pub fn get_file_icon<'a>(theme: &'a IconTheme, path: &str, is_dir: bool) -> (r: &'a str)
    ensures
        r@ == icon_text(*theme, path@, is_dir),
{
    if is_dir {
        return theme.dir.as_str();
    }
    let p = chars_of(path);
    let found = match file_name_bounds(&p) {
        Some((s, e)) => {
            match extension_start(&p, s, e) {
                Some(x) => {
                    let ext = string_of_range(&p, x, e);
                    let lower = to_lowercase(ext.as_str());
                    find_icon(&theme.extension, lower.as_str())
                },
                None => {
                    let name = string_of_range(&p, s, e);
                    let lower = to_lowercase(name.as_str());
                    find_icon(&theme.name, lower.as_str())
                },
            }
        },
        None => {
            let name = String::new();
            let lower = to_lowercase(name.as_str());
            find_icon(&theme.name, lower.as_str())
        },
    };
    match found {
        Some(icon) => icon,
        None => theme.file.as_str(),
    }
}

} // verus!
