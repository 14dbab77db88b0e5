//! The error taxonomy of the pipeline. Every failure aborts the run at the
//! point of detection and surfaces as a single human-readable line.

use vstd::prelude::*;
use crate::format::{FileFormat, spec_format_name};

verus! {

/// Every way the pipeline can fail.
#[derive(Debug, Clone)]
pub enum Error {
    /// A standard-input source was given without an explicit format.
    FormatRequired,
    /// A file source's extension maps to no known format and no explicit
    /// override was given. Carries the offending extension.
    UnsupportedExtension(String),
    /// A parser rejected a source's contents; carries the source's format
    /// and the underlying parser diagnostic.
    Deserialization { format: FileFormat, message: String },
    /// A source's top-level parsed value is not a mapping; carries the index
    /// of the offending source.
    ContextShape { index: usize },
    /// The literal template path is missing or unreadable, the glob matched
    /// nothing, or the glob pattern is malformed.
    TemplateLoad { message: String },
    /// The templating engine failed; carries the template identifier and the
    /// engine's diagnostic chain.
    TemplateRender { template: String, message: String },
    /// A glob pattern was given without an output directory.
    OutputDirRequired,
    /// Directory creation, file creation or a read failed; carries the
    /// offending path.
    Io { path: String, message: String },
}

/// The decimal digits of `n`, most significant first.
pub open spec fn spec_digits(n: int) -> Seq<char>
    recommends
        n >= 0,
    decreases n,
{
    if n < 10 {
        seq![digit_char(n)]
    } else {
        spec_digits(n / 10).push(digit_char(n % 10))
    }
}

pub open spec fn digit_char(d: int) -> char {
    if d == 0 {
        '0'
    } else if d == 1 {
        '1'
    } else if d == 2 {
        '2'
    } else if d == 3 {
        '3'
    } else if d == 4 {
        '4'
    } else if d == 5 {
        '5'
    } else if d == 6 {
        '6'
    } else if d == 7 {
        '7'
    } else if d == 8 {
        '8'
    } else {
        '9'
    }
}

/// Appends the decimal digits of `n` to `out`.
fn push_digits(n: usize, out: &mut String)
    ensures
        final(out)@ == old(out)@ + spec_digits(n as int),
    decreases n,
{
    if n >= 10 {
        push_digits(n / 10, out);
    }
    let d = n % 10;
    proof {
        reveal_strlit("0");
        reveal_strlit("1");
        reveal_strlit("2");
        reveal_strlit("3");
        reveal_strlit("4");
        reveal_strlit("5");
        reveal_strlit("6");
        reveal_strlit("7");
        reveal_strlit("8");
        reveal_strlit("9");
    }
    match d {
        0 => out.append("0"),
        1 => out.append("1"),
        2 => out.append("2"),
        3 => out.append("3"),
        4 => out.append("4"),
        5 => out.append("5"),
        6 => out.append("6"),
        7 => out.append("7"),
        8 => out.append("8"),
        _ => out.append("9"),
    }
    proof {
        assert(final(out)@ =~= old(out)@ + spec_digits(n as int));
    }
}

/// The message of a failed deserialization: the format's name and the
/// parser's own diagnostic.
pub open spec fn spec_deser_message(format: FileFormat, cause: Seq<char>) -> Seq<char> {
    "Failed "@ + spec_format_name(format) + " deserialization: "@ + cause
}

impl Error {
    /// The single human-readable line that describes this error.
    pub open spec fn spec_message(self) -> Seq<char> {
        match self {
            Error::FormatRequired => "Format required when reading from standard input"@,
            Error::UnsupportedExtension(e) => "Unsupported file extension: "@ + e@,
            Error::Deserialization { format, message } => spec_deser_message(format, message@),
            Error::ContextShape { index } => "Source "@ + spec_digits(index as int)
                + " is not a mapping at the top level"@,
            Error::TemplateLoad { message } => "Failed to load templates: "@ + message@,
            Error::TemplateRender { template, message } => "Failed to render template '"@
                + template@ + "': "@ + message@,
            Error::OutputDirRequired => "Output directory required when rendering a template set"@,
            Error::Io { path, message } => "IO error at '"@ + path@ + "': "@ + message@,
        }
    }

    /// Renders the error as its single diagnostic line.
    pub fn message(&self) -> (r: String)
        ensures
            r@ == self.spec_message(),
    {
        let mut out = String::new();
        match self {
            Error::FormatRequired => {
                out.append("Format required when reading from standard input");
            },
            Error::UnsupportedExtension(e) => {
                out.append("Unsupported file extension: ");
                out.append(e.as_str());
            },
            Error::Deserialization { format, message } => {
                out.append("Failed ");
                out.append(format.name());
                out.append(" deserialization: ");
                out.append(message.as_str());
            },
            Error::ContextShape { index } => {
                out.append("Source ");
                push_digits(*index, &mut out);
                out.append(" is not a mapping at the top level");
            },
            Error::TemplateLoad { message } => {
                out.append("Failed to load templates: ");
                out.append(message.as_str());
            },
            Error::TemplateRender { template, message } => {
                out.append("Failed to render template '");
                out.append(template.as_str());
                out.append("': ");
                out.append(message.as_str());
            },
            Error::OutputDirRequired => {
                out.append("Output directory required when rendering a template set");
            },
            Error::Io { path, message } => {
                out.append("IO error at '");
                out.append(path.as_str());
                out.append("': ");
                out.append(message.as_str());
            },
        }
        proof {
            assert(out@ =~= self.spec_message());
        }
        out
    }
}

} // verus!
