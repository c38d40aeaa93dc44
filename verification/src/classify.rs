//! The source-file classifier: a fixed allow-list of extensions and of
//! reserved file names, matched after lowercasing.

use vstd::prelude::*;
use crate::paths::{extension, extension_start, file_name, file_name_bounds};
use crate::text::{chars_are, chars_of, lowercase_of, string_of_range, to_lowercase};

verus! {

/// Extensions of programming and scripting languages.
pub open spec fn is_language_extension(ext: Seq<char>) -> bool {
    ext == "rs"@
        || ext == "py"@
        || ext == "js"@
        || ext == "ts"@
        || ext == "jsx"@
        || ext == "tsx"@
        || ext == "go"@
        || ext == "java"@
        || ext == "c"@
        || ext == "h"@
        || ext == "cpp"@
        || ext == "cc"@
        || ext == "cxx"@
        || ext == "hpp"@
        || ext == "cs"@
        || ext == "php"@
        || ext == "rb"@
        || ext == "swift"@
        || ext == "kt"@
        || ext == "dart"@
        || ext == "lua"@
        || ext == "r"@
        || ext == "scala"@
        || ext == "clj"@
        || ext == "cljs"@
        || ext == "hs"@
        || ext == "ml"@
        || ext == "mli"@
        || ext == "elm"@
        || ext == "ex"@
        || ext == "exs"@
        || ext == "erl"@
        || ext == "vim"@
        || ext == "sh"@
        || ext == "bash"@
        || ext == "zsh"@
        || ext == "fish"@
        || ext == "ps1"@
}

/// Extensions of web markup, styling and component files.
pub open spec fn is_web_extension(ext: Seq<char>) -> bool {
    ext == "html"@
        || ext == "htm"@
        || ext == "css"@
        || ext == "scss"@
        || ext == "sass"@
        || ext == "less"@
        || ext == "vue"@
        || ext == "svelte"@
}

/// Extensions of configuration and data files.
pub open spec fn is_data_extension(ext: Seq<char>) -> bool {
    ext == "json"@
        || ext == "toml"@
        || ext == "yaml"@
        || ext == "yml"@
        || ext == "xml"@
        || ext == "ini"@
        || ext == "conf"@
        || ext == "config"@
        || ext == "env"@
}

/// Extensions of documentation files.
pub open spec fn is_document_extension(ext: Seq<char>) -> bool {
    ext == "md"@
        || ext == "markdown"@
        || ext == "txt"@
        || ext == "rst"@
        || ext == "tex"@
        || ext == "rtf"@
}

/// The allow-list of extensions, in lowercase.
pub open spec fn is_source_extension(ext: Seq<char>) -> bool {
    is_language_extension(ext) || is_web_extension(ext) || is_data_extension(ext)
        || is_document_extension(ext)
}

/// The allow-list of reserved file names, in lowercase.
pub open spec fn is_source_name(name: Seq<char>) -> bool {
    name == "dockerfile"@
        || name == "makefile"@
        || name == "readme"@
        || name == "license"@
        || name == "changelog"@
        || name == "cargo.toml"@
        || name == "package.json"@
        || name == ".gitignore"@
        || name == ".gitmodules"@
        || name == ".env"@
}

/// The name that is classified when a path has no extension: its final
/// component, or the empty text when it has none.
pub open spec fn classified_name(path: Seq<char>) -> Seq<char> {
    match file_name(path) {
        Some(name) => name,
        None => Seq::empty(),
    }
}

/// Whether a path counts as source. A path with an extension is judged by
/// the lowercased extension alone; one without is judged by its lowercased
/// file name.
pub open spec fn is_source_path(path: Seq<char>) -> bool {
    match extension(path) {
        Some(ext) => is_source_extension(lowercase_of(ext)),
        None => is_source_name(lowercase_of(classified_name(path))),
    }
}

/// Whether `v` is a listed language extension.
pub fn language_extension_listed(v: &Vec<char>) -> (r: bool)
    ensures
        r == is_language_extension(v@),
{
    if chars_are(v, "rs") {
        return true;
    }
    if chars_are(v, "py") {
        return true;
    }
    if chars_are(v, "js") {
        return true;
    }
    if chars_are(v, "ts") {
        return true;
    }
    if chars_are(v, "jsx") {
        return true;
    }
    if chars_are(v, "tsx") {
        return true;
    }
    if chars_are(v, "go") {
        return true;
    }
    if chars_are(v, "java") {
        return true;
    }
    if chars_are(v, "c") {
        return true;
    }
    if chars_are(v, "h") {
        return true;
    }
    if chars_are(v, "cpp") {
        return true;
    }
    if chars_are(v, "cc") {
        return true;
    }
    if chars_are(v, "cxx") {
        return true;
    }
    if chars_are(v, "hpp") {
        return true;
    }
    if chars_are(v, "cs") {
        return true;
    }
    if chars_are(v, "php") {
        return true;
    }
    if chars_are(v, "rb") {
        return true;
    }
    if chars_are(v, "swift") {
        return true;
    }
    if chars_are(v, "kt") {
        return true;
    }
    if chars_are(v, "dart") {
        return true;
    }
    if chars_are(v, "lua") {
        return true;
    }
    if chars_are(v, "r") {
        return true;
    }
    if chars_are(v, "scala") {
        return true;
    }
    if chars_are(v, "clj") {
        return true;
    }
    if chars_are(v, "cljs") {
        return true;
    }
    if chars_are(v, "hs") {
        return true;
    }
    if chars_are(v, "ml") {
        return true;
    }
    if chars_are(v, "mli") {
        return true;
    }
    if chars_are(v, "elm") {
        return true;
    }
    if chars_are(v, "ex") {
        return true;
    }
    if chars_are(v, "exs") {
        return true;
    }
    if chars_are(v, "erl") {
        return true;
    }
    if chars_are(v, "vim") {
        return true;
    }
    if chars_are(v, "sh") {
        return true;
    }
    if chars_are(v, "bash") {
        return true;
    }
    if chars_are(v, "zsh") {
        return true;
    }
    if chars_are(v, "fish") {
        return true;
    }
    if chars_are(v, "ps1") {
        return true;
    }
    false
}

/// Whether `v` is a listed web extension.
pub fn web_extension_listed(v: &Vec<char>) -> (r: bool)
    ensures
        r == is_web_extension(v@),
{
    if chars_are(v, "html") {
        return true;
    }
    if chars_are(v, "htm") {
        return true;
    }
    if chars_are(v, "css") {
        return true;
    }
    if chars_are(v, "scss") {
        return true;
    }
    if chars_are(v, "sass") {
        return true;
    }
    if chars_are(v, "less") {
        return true;
    }
    if chars_are(v, "vue") {
        return true;
    }
    if chars_are(v, "svelte") {
        return true;
    }
    false
}

/// Whether `v` is a listed configuration or data extension.
pub fn data_extension_listed(v: &Vec<char>) -> (r: bool)
    ensures
        r == is_data_extension(v@),
{
    if chars_are(v, "json") {
        return true;
    }
    if chars_are(v, "toml") {
        return true;
    }
    if chars_are(v, "yaml") {
        return true;
    }
    if chars_are(v, "yml") {
        return true;
    }
    if chars_are(v, "xml") {
        return true;
    }
    if chars_are(v, "ini") {
        return true;
    }
    if chars_are(v, "conf") {
        return true;
    }
    if chars_are(v, "config") {
        return true;
    }
    if chars_are(v, "env") {
        return true;
    }
    false
}

/// Whether `v` is a listed documentation extension.
pub fn document_extension_listed(v: &Vec<char>) -> (r: bool)
    ensures
        r == is_document_extension(v@),
{
    if chars_are(v, "md") {
        return true;
    }
    if chars_are(v, "markdown") {
        return true;
    }
    if chars_are(v, "txt") {
        return true;
    }
    if chars_are(v, "rst") {
        return true;
    }
    if chars_are(v, "tex") {
        return true;
    }
    if chars_are(v, "rtf") {
        return true;
    }
    false
}

/// Whether the lowercase text `ext` is on the extension allow-list.
pub fn extension_listed(ext: &str) -> (r: bool)
    ensures
        r == is_source_extension(ext@),
{
    let v = chars_of(ext);
    language_extension_listed(&v) || web_extension_listed(&v) || data_extension_listed(&v)
        || document_extension_listed(&v)
}

/// Whether the lowercase text `name` is on the allow-list of reserved file
/// names.
pub fn name_listed(name: &str) -> (r: bool)
    ensures
        r == is_source_name(name@),
{
    let v = chars_of(name);
    let v = &v;
    if chars_are(v, "dockerfile") {
        return true;
    }
    if chars_are(v, "makefile") {
        return true;
    }
    if chars_are(v, "readme") {
        return true;
    }
    if chars_are(v, "license") {
        return true;
    }
    if chars_are(v, "changelog") {
        return true;
    }
    if chars_are(v, "cargo.toml") {
        return true;
    }
    if chars_are(v, "package.json") {
        return true;
    }
    if chars_are(v, ".gitignore") {
        return true;
    }
    if chars_are(v, ".gitmodules") {
        return true;
    }
    if chars_are(v, ".env") {
        return true;
    }
    false
}

/// Whether `path` names a source file. No file is touched: the answer
/// depends on the text of the path alone.
pub fn is_source_file(path: &str) -> (r: bool)
    ensures
        r == is_source_path(path@),
{
    let p = chars_of(path);
    match file_name_bounds(&p) {
        Some((s, e)) => {
            match extension_start(&p, s, e) {
                Some(x) => {
                    let ext = string_of_range(&p, x, e);
                    let lower = to_lowercase(ext.as_str());
                    extension_listed(lower.as_str())
                },
                None => {
                    let name = string_of_range(&p, s, e);
                    let lower = to_lowercase(name.as_str());
                    name_listed(lower.as_str())
                },
            }
        },
        None => {
            let name = String::new();
            let lower = to_lowercase(name.as_str());
            name_listed(lower.as_str())
        },
    }
}

/// Two paths whose extensions agree once lowercased are classified alike:
/// the case of an extension never matters.
pub proof fn lemma_extension_case_is_ignored(p: Seq<char>, q: Seq<char>)
    requires
        extension(p).is_some(),
        extension(q).is_some(),
        lowercase_of(extension(p).unwrap()) == lowercase_of(extension(q).unwrap()),
    ensures
        is_source_path(p) == is_source_path(q),
{
}

/// A path with an extension that is off the allow-list is never source,
/// whatever its file name.
pub proof fn lemma_unlisted_extension_is_rejected(p: Seq<char>)
    requires
        extension(p).is_some(),
        !is_source_extension(lowercase_of(extension(p).unwrap())),
    ensures
        !is_source_path(p),
{
}

} // verus!
