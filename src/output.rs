//! Report formats and where a report is written.
use vstd::prelude::*;
use vstd::string::StringExecFns;
use crate::text::{ends_with, lower_of, lowercase, str_eq};

verus! {

/// The format a report is rendered in.
#[derive(Debug, Clone, Copy, PartialEq, Eq, Structural)]
pub enum OutputFormat {
    Json,
    Html,
}

/// The format a lowercased name selects: `json`, and HTML for anything else.
pub open spec fn format_of_lower(lower: Seq<char>) -> OutputFormat {
    if lower == "json"@ {
        OutputFormat::Json
    } else {
        OutputFormat::Html
    }
}

impl OutputFormat {
    /// The format that an already lowercased name selects.
    pub fn from_lowercase(lower: &str) -> (r: OutputFormat)
        ensures
            r == format_of_lower(lower@),
    {
        if str_eq(lower, "json") {
            OutputFormat::Json
        } else {
            OutputFormat::Html
        }
    }

    /// The format a name selects, ignoring case: `json`, and HTML for
    /// anything else.
    pub fn from_name(s: &str) -> (r: OutputFormat)
        ensures
            r == format_of_lower(lower_of(s@)),
    {
        let lower = lowercase(s);
        OutputFormat::from_lowercase(lower.as_str())
    }

    pub open spec fn spec_extension(self) -> Seq<char> {
        match self {
            OutputFormat::Html => ".html"@,
            OutputFormat::Json => ".json"@,
        }
    }

    /// The file extension of this format, with its dot.
    pub fn extension(&self) -> (r: &'static str)
        ensures
            r@ == self.spec_extension(),
    {
        match self {
            OutputFormat::Html => ".html",
            OutputFormat::Json => ".json",
        }
    }
}

impl<'a> From<&'a str> for OutputFormat {
    /// The format a name selects, ignoring case (see `OutputFormat::from_name`).
    fn from(s: &'a str) -> (r: OutputFormat) {
        OutputFormat::from_name(s)
    }
}

impl<'a> vstd::std_specs::convert::FromSpecImpl<&'a str> for OutputFormat {
    open spec fn obeys_from_spec() -> bool {
        true
    }

    open spec fn from_spec(s: &'a str) -> OutputFormat {
        format_of_lower(lower_of(s@))
    }
}

/// `path` with the format's extension appended, unless it already ends in it.
pub open spec fn with_extension(path: Seq<char>, ext: Seq<char>) -> Seq<char> {
    if ext.len() <= path.len() && path.subrange(path.len() - ext.len(), path.len() as int) == ext {
        path
    } else {
        path + ext
    }
}

/// `path`, ending in the extension of `format`.
pub fn add_file_extension(path: &str, format: &OutputFormat) -> (r: String)
    ensures
        r@ == with_extension(path@, format.spec_extension()),
{
    let ext = format.extension();
    if ends_with(path, ext) {
        String::from_str(path)
    } else {
        let mut r = String::from_str(path);
        r.append(ext);
        r
    }
}

/// Where and how a report is written.
#[derive(Debug)]
pub struct Reporter {
    pub format: OutputFormat,
    pub output_path: String,
}

impl Reporter {
    /// A reporter for the named format (see `OutputFormat::from_name`)
    /// writing to `output_path` with that format's extension.
    pub fn new(format: &str, output_path: &str) -> (r: Reporter)
        ensures
            r.format == format_of_lower(lower_of(format@)),
            r.output_path@ == with_extension(output_path@, r.format.spec_extension()),
    {
        let format = OutputFormat::from_name(format);
        let output_path = add_file_extension(output_path, &format);
        Reporter { format, output_path }
    }
}

} // verus!
