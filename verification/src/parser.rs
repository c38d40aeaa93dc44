//! Structured-data files: which format a file is in, judged by its
//! extension.

use vstd::prelude::*;
use vstd::string::StringExecFns;
use crate::paths::{extension, extension_start, file_name_bounds};
use crate::text::{chars_are, chars_of, lowercase_of, string_of_range, to_lowercase};

verus! {

/// A format of structured data.
#[derive(Clone, Copy, Debug, PartialEq, Eq, Structural)]
pub enum DataFormat {
    Json,
    Yaml,
    Toml,
}

/// The extension that decides the format of a path: its own, or the empty
/// text when it has none.
pub open spec fn format_extension(path: Seq<char>) -> Seq<char> {
    match extension(path) {
        Some(ext) => ext,
        None => Seq::empty(),
    }
}

/// The format that a lowercase extension stands for.
pub open spec fn format_for(ext: Seq<char>) -> Option<DataFormat> {
    if ext == "json"@ {
        Some(DataFormat::Json)
    } else if ext == "yaml"@ || ext == "yml"@ {
        Some(DataFormat::Yaml)
    } else if ext == "toml"@ {
        Some(DataFormat::Toml)
    } else {
        None
    }
}

/// The complaint about an extension that stands for no format.
pub open spec fn unsupported_text(ext: Seq<char>) -> Seq<char> {
    "Unsupported file format: "@ + ext
}

impl DataFormat {
    /// The name of a format as it is shown.
    pub open spec fn name_text(self) -> Seq<char> {
        match self {
            DataFormat::Json => "JSON"@,
            DataFormat::Yaml => "YAML"@,
            DataFormat::Toml => "TOML"@,
        }
    }

    /// The name of a format as it is shown.
    pub fn name(&self) -> (r: &'static str)
        ensures
            r@ == self.name_text(),
    {
        match self {
            DataFormat::Json => "JSON",
            DataFormat::Yaml => "YAML",
            DataFormat::Toml => "TOML",
        }
    }
}

/// The format that the lowercase extension `ext` stands for, or the
/// complaint that it stands for none.
pub fn format_of_extension(ext: &str) -> (r: Result<DataFormat, String>)
    ensures
        match r {
            Ok(f) => format_for(ext@) == Some(f),
            Err(why) => format_for(ext@).is_none() && why@ == unsupported_text(ext@),
        },
{
    let v = chars_of(ext);
    if chars_are(&v, "json") {
        Ok(DataFormat::Json)
    } else if chars_are(&v, "yaml") || chars_are(&v, "yml") {
        Ok(DataFormat::Yaml)
    } else if chars_are(&v, "toml") {
        Ok(DataFormat::Toml)
    } else {
        let mut why = String::from_str("Unsupported file format: ");
        why.append(ext);
        Err(why)
    }
}

/// The format of the file at `file_path`, judged by its lowercased
/// extension. A path without an extension is judged by the empty text.
pub fn detect_format(file_path: &str) -> (r: Result<DataFormat, String>)
    ensures
        match r {
            Ok(f) => format_for(lowercase_of(format_extension(file_path@))) == Some(f),
            Err(why) => format_for(lowercase_of(format_extension(file_path@))).is_none() && why@
                == unsupported_text(lowercase_of(format_extension(file_path@))),
        },
{
    let p = chars_of(file_path);
    let ext = match file_name_bounds(&p) {
        Some((s, e)) => {
            match extension_start(&p, s, e) {
                Some(x) => string_of_range(&p, x, e),
                None => String::new(),
            }
        },
        None => String::new(),
    };
    let lower = to_lowercase(ext.as_str());
    format_of_extension(lower.as_str())
}

/// A value of structured data.
#[derive(Debug)]
pub enum DataValue {
    String(String),
    /// A number, held as the text that shows it.
    Number(String),
    Boolean(bool),
    Array(Vec<DataValue>),
    Object(Vec<Member>),
    Null,
}

/// A member of an object: its key and its value.
#[derive(Debug)]
pub struct Member {
    pub key: String,
    pub value: DataValue,
}

/// Parsed data with the name of the format that it came in.
#[derive(Debug)]
pub struct ParsedData {
    pub data: DataValue,
    pub format: String,
}

impl DataValue {
    /// Whether the value is a leaf: anything but an array or an object.
    pub open spec fn is_simple(self) -> bool {
        !(self is Array) && !(self is Object)
    }

    /// The text that shows a value in a cell: a leaf as it reads, an
    /// array or an object as a marker that a table follows.
    pub open spec fn display_text(self) -> Seq<char> {
        match self {
            DataValue::String(s) => s@,
            DataValue::Number(n) => n@,
            DataValue::Boolean(b) => if b {
                "true"@
            } else {
                "false"@
            },
            DataValue::Array(_) => "▸ table"@,
            DataValue::Object(_) => "▸ table"@,
            DataValue::Null => "null"@,
        }
    }

    /// The text that shows the value in a cell.
    pub fn to_display_string(&self) -> (r: String)
        ensures
            r@ == self.display_text(),
    {
        match self {
            DataValue::String(s) => s.clone(),
            DataValue::Number(n) => n.clone(),
            DataValue::Boolean(b) => {
                if *b {
                    String::from_str("true")
                } else {
                    String::from_str("false")
                }
            },
            DataValue::Array(_) => String::from_str("▸ table"),
            DataValue::Object(_) => String::from_str("▸ table"),
            DataValue::Null => String::from_str("null"),
        }
    }

    /// Whether the value is a leaf.
    pub fn is_simple_value(&self) -> (r: bool)
        ensures
            r == self.is_simple(),
    {
        match self {
            DataValue::Array(_) => false,
            DataValue::Object(_) => false,
            _ => true,
        }
    }
}

} // verus!
