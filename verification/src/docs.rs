//! The documentation record types: the canonical record, the raw per-source
//! record it is normalized from, and the two-shaped description.

use vstd::prelude::*;
use vstd::string::StringExecFns;
use crate::strutil::joined;
use colored::Colorize;

verus! {

/// Model of a description: its text and an optional format tag.
pub ghost struct DescriptionV {
    pub text: Seq<char>,
    pub format: Option<Seq<char>>,
}

/// A description as one of the raw schemas carries it: free text, possibly
/// with a format tag. The canonical record keeps only the text.
#[derive(Debug, PartialEq, Eq)]
pub struct Description {
    pub text: String,
    pub format: Option<String>,
}

impl View for Description {
    type V = DescriptionV;

    open spec fn view(&self) -> DescriptionV {
        DescriptionV {
            text: self.text@,
            format: match self.format {
                Some(f) => Some(f@),
                None => None,
            },
        }
    }
}

impl Description {
    /// Wraps bare text as a description without a format tag; reading a
    /// bare-string description can therefore never fail.
    pub fn from_text(s: &str) -> (r: Description)
        ensures
            r@ == (DescriptionV { text: s@, format: None }),
    {
        Description { text: s.to_owned(), format: None }
    }
}

impl Default for Description {
    /// The default description: empty text, no format tag.
    fn default() -> (r: Description)
        ensures
            r@ == (DescriptionV { text: Seq::<char>::empty(), format: None }),
    {
        Description { text: String::new(), format: None }
    }
}

/// Model of a raw record: the canonical fields, with the description still
/// carrying its format tag.
pub ghost struct RawDocView {
    pub description: DescriptionV,
    pub read_only: bool,
    pub location: Seq<Seq<char>>,
    pub option_type: Seq<char>,
}

/// One option's documentation as a raw source schema carries it, before the
/// description is reduced to its text.
#[derive(Debug, PartialEq, Eq)]
pub struct JsonOptionDocumentation {
    pub description: Description,
    pub read_only: bool,
    pub location: Vec<String>,
    pub option_type: String,
}

impl View for JsonOptionDocumentation {
    type V = RawDocView;

    open spec fn view(&self) -> RawDocView {
        RawDocView {
            description: self.description@,
            read_only: self.read_only,
            location: self.location.deep_view(),
            option_type: self.option_type@,
        }
    }
}

/// Model of a canonical record.
pub ghost struct DocView {
    pub description: Seq<char>,
    pub read_only: bool,
    pub location: Seq<Seq<char>>,
    pub option_type: Seq<char>,
}

/// The canonical documentation record of one option: description text, the
/// read-only flag, the location (path segments whose dot-joined form is the
/// option's name) and a free-form type descriptor.
#[derive(Debug, PartialEq, Eq)]
pub struct OptionDocumentation {
    pub description: String,
    pub read_only: bool,
    pub location: Vec<String>,
    pub option_type: String,
}

impl View for OptionDocumentation {
    type V = DocView;

    open spec fn view(&self) -> DocView {
        DocView {
            description: self.description@,
            read_only: self.read_only,
            location: self.location.deep_view(),
            option_type: self.option_type@,
        }
    }
}

/// The canonical form of a raw record: the description is reduced to its
/// text; the format tag is discarded.
pub open spec fn flatten_record(d: RawDocView) -> DocView {
    DocView {
        description: d.description.text,
        read_only: d.read_only,
        location: d.location,
        option_type: d.option_type,
    }
}

impl JsonOptionDocumentation {
    /// Reduces this raw record to the canonical one, keeping only the
    /// description's text.
    pub fn normalize(self) -> (r: OptionDocumentation)
        ensures
            r@ == flatten_record(self@),
    {
        OptionDocumentation {
            description: self.description.text,
            read_only: self.read_only,
            location: self.location,
            option_type: self.option_type,
        }
    }
}

impl Clone for OptionDocumentation {
    /// The copy shows the same record.
    fn clone(&self) -> (r: Self)
        ensures
            r@ == self@,
    {
        let location = self.location.clone();
        proof {
            assert forall|i: int| 0 <= i < self.location@.len() implies location@[i]
                == self.location@[i] by {
                assert(vstd::pervasive::cloned::<String>(self.location[i], location[i]));
            }
            assert(location@ =~= self.location@);
        }
        let r = OptionDocumentation {
            description: self.description.clone(),
            read_only: self.read_only,
            location,
            option_type: self.option_type.clone(),
        };
        proof {
            assert(r@.location =~= self@.location);
        }
        r
    }
}

/// What `styled_header` may answer: a layout with the header text in the
/// middle of it.
pub open spec fn pretty_layout(
    header: Seq<char>,
    description: Seq<char>,
    option_type: Seq<char>,
) -> Seq<char> {
    "# "@ + header + "\n"@ + description + "\ntype: "@ + option_type + "\n\n"@
}

impl OptionDocumentation {
    /// The option's dotted name: its location segments joined with `"."`.
    pub fn name(&self) -> (r: String)
        ensures
            r@ == joined(self@.location),
    {
        crate::strutil::join_dotted(&self.location)
    }

    /// The record rendered for a terminal: a styled header holding the dotted
    /// name, then the description, then the type. Only the header's styling
    /// is left open, as it depends on the terminal and the process
    /// environment.
    pub fn pretty_printed(&self) -> (r: String)
        ensures
            exists|header: Seq<char>|
                r@ == pretty_layout(header, self@.description, self@.option_type),
    {
        let name = self.name();
        let header = styled_header(name.as_str());
        let mut out = String::from_str("# ");
        out.append(header.as_str());
        out.append("\n");
        out.append(self.description.as_str());
        out.append("\ntype: ");
        out.append(self.option_type.as_str());
        out.append("\n\n");
        proof {
            assert(out@ == pretty_layout(header@, self@.description, self@.option_type));
        }
        out
    }
}

/// Relies on colored's `Colorize::blue` and `Colorize::bold`: they style the
/// text for terminal output. Whether escape codes are woven in depends on the
/// terminal and the process environment, so nothing is promised of the
/// result.
#[verifier::external_body]
fn styled_header(name: &str) -> String {
    format!("{}", name.blue().bold())
}

} // verus!
