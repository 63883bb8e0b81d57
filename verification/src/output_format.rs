//! The two formats in which findings are reported.
use vstd::prelude::*;
use crate::text::{str_eq};
use vstd::string::StringExecFns;

verus! {

/// How the findings of a check are reported.
#[derive(Clone, Copy, Debug, PartialEq, Eq, Structural)]
pub enum OutputFormat {
    /// Human-readable error messages (the default).
    Errors,
    /// A Markdown table of the unapproved external types.
    MarkdownTable,
}

/// The name by which a format is written on the command line.
pub open spec fn format_name(f: OutputFormat) -> Seq<char> {
    match f {
        OutputFormat::Errors => "errors"@,
        OutputFormat::MarkdownTable => "markdown-table"@,
    }
}

/// The message for a format name that is not known.
pub open spec fn invalid_format_message(s: Seq<char>) -> Seq<char> {
    "invalid output format: "@ + s + ". Expected `errors` or `markdown-table`."@
}

/// What parsing a format name gives.
pub open spec fn parse_format(s: Seq<char>) -> Result<OutputFormat, Seq<char>> {
    if s == "errors"@ {
        Ok(OutputFormat::Errors)
    } else if s == "markdown-table"@ {
        Ok(OutputFormat::MarkdownTable)
    } else {
        Err(invalid_format_message(s))
    }
}

impl OutputFormat {
    /// Parses a format name; anything but the two names is refused with a
    /// message that names the input and the accepted names.
    pub fn from_str(s: &str) -> (r: Result<OutputFormat, String>)
        ensures
            match r {
                Ok(f) => parse_format(s@) == Ok::<OutputFormat, Seq<char>>(f),
                Err(e) => parse_format(s@) == Err::<OutputFormat, Seq<char>>(e@),
            },
    {
        if str_eq(s, "errors") {
            Ok(OutputFormat::Errors)
        } else if str_eq(s, "markdown-table") {
            Ok(OutputFormat::MarkdownTable)
        } else {
            let mut msg = String::from_str("invalid output format: ");
            msg.append(s);
            msg.append(". Expected `errors` or `markdown-table`.");
            Err(msg)
        }
    }

    /// The name of the format, as it is written on the command line.
    pub fn name(&self) -> (r: String)
        ensures
            r@ == format_name(*self),
    {
        match self {
            OutputFormat::Errors => String::from_str("errors"),
            OutputFormat::MarkdownTable => String::from_str("markdown-table"),
        }
    }
}

/// Writing a format's name and parsing it back gives the same format.
pub proof fn law_format_name_round_trip(f: OutputFormat)
    ensures
        parse_format(format_name(f)) == Ok::<OutputFormat, Seq<char>>(f),
{
    reveal_strlit("errors");
    reveal_strlit("markdown-table");
    assert("markdown-table"@.len() != "errors"@.len());
}

/// A name that parses is exactly the name of the format it parses to, so
/// each format has one name.
pub proof fn law_parsed_name_is_format_name(s: Seq<char>)
    ensures
        parse_format(s) matches Ok(f) ==> format_name(f) == s,
{
}

} // verus!
