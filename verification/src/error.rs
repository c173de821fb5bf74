//! Error types of the library.  Every fallible operation reports a structured
//! error; nothing panics and no failure is downgraded to a default value.

use vstd::prelude::*;

use crate::text::{dec_str, usize_to_string};

verus! {

/// A geometry document could not be parsed.  Frame indices are zero-based.
#[derive(Debug, PartialEq, Eq)]
pub enum GeometryFormatError {
    /// The input held no lines at all, so no frame could be produced.
    EmptyInput,
    /// A line that is not an atom-count line stood before the first frame.
    LeadingContent,
    /// A frame's atom-count line was the last line of the input, so the
    /// annotation line is missing.
    MissingAnnotation { frame: usize },
    /// The number of atom lines found for a frame differs from the count the
    /// frame declared.
    CountMismatch { frame: usize, expected: usize, found: usize },
}

/// A split index does not fall inside the molecule's atom list.
#[derive(Debug, PartialEq, Eq)]
pub struct IndexOutOfRange {
    /// The index that was asked for.
    pub index: usize,
    /// The number of atoms in the molecule.
    pub len: usize,
}

/// A template's header region could not be compiled into options.
#[derive(Debug, PartialEq, Eq)]
pub enum TemplateHeaderError {
    /// A header-opening marker line was never followed by a closing one.
    UnclosedHeader,
    /// The header text is not well-formed key/value data; the message comes
    /// from the header parser.
    Malformed(String),
    /// The recognized `extension` key is present but its value is not a
    /// string.
    ExtensionNotString,
}

/// Rendering a template body against a context failed.
#[derive(Debug, PartialEq, Eq)]
pub enum RenderError {
    /// The template engine rejected the body or its evaluation; the message
    /// names the offending variable or construct.
    Failed(String),
    /// A helper function received an argument of the wrong kind.
    InvalidArgument(String),
    /// The split helper's index fell outside the molecule, propagated from
    /// the split operation unchanged.
    IndexOutOfRange(IndexOutOfRange),
}

impl RenderError {
    /// The human-readable message of this error.
    pub fn message(&self) -> (r: String)
        ensures
            (self matches RenderError::Failed(m) ==> r@ == m@),
            (self matches RenderError::InvalidArgument(m) ==> r@ == m@),
            (self matches RenderError::IndexOutOfRange(e) ==> r@ == "split index "@ + dec_str(
                e.index as nat,
            ) + " is out of range for a molecule of "@ + dec_str(e.len as nat) + " atoms"@),
    {
        match self {
            RenderError::Failed(m) => m.clone(),
            RenderError::InvalidArgument(m) => m.clone(),
            RenderError::IndexOutOfRange(e) => {
                let mut s = String::new();
                s.append("split index ");
                let idx = usize_to_string(e.index);
                s.append(idx.as_str());
                s.append(" is out of range for a molecule of ");
                let len = usize_to_string(e.len);
                s.append(len.as_str());
                s.append(" atoms");
                proof {
                    assert(s@ =~= "split index "@ + dec_str(e.index as nat)
                        + " is out of range for a molecule of "@ + dec_str(e.len as nat)
                        + " atoms"@);
                }
                s
            },
        }
    }
}

} // verus!
