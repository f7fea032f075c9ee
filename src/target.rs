//! The output targets a conversion can produce.
pub mod csv;
pub mod sql;

use vstd::prelude::*;
use crate::Arguments;

verus! {

#[verifier::external_type_specification]
#[verifier::external_body]
pub struct ExCsvError(::csv::Error);

#[verifier::external_type_specification]
#[verifier::external_body]
pub struct ExTemplateError(::tinytemplate::error::Error);

/// What read from disk feeds a conversion.
pub struct Sources {
    /// The CSV text.
    pub csv: String,
    /// The prefix template's text, if its file exists.
    pub prefix: Option<String>,
    /// The suffix template's text, if its file exists.
    pub suffix: Option<String>,
}

/// Why a conversion failed.
#[derive(Debug)]
pub enum ConvertError {
    /// A record of the CSV text could not be decoded.
    MalformedInput(::csv::Error),
    /// A prefix or suffix template could not be compiled or rendered.
    Template(::tinytemplate::error::Error),
    /// A prefix or suffix template uses more than the substitution of values: a block tag
    /// `{{`, an empty comment `{#}`, or a backslash at its end.
    UnsupportedTemplate,
}

/// The kind of a `ConvertError`, without its details.
#[derive(PartialEq, Eq, Structural, Clone, Copy, Debug)]
pub enum Failure {
    MalformedInput,
    Template,
}

impl ConvertError {
    pub open spec fn failure(&self) -> Failure {
        match self {
            ConvertError::MalformedInput(_) => Failure::MalformedInput,
            ConvertError::Template(_) => Failure::Template,
            ConvertError::UnsupportedTemplate => Failure::Template,
        }
    }
}

/// A conversion's result, with the text as characters and the error as its kind.
pub open spec fn outcome_of<T: View>(r: Result<T, ConvertError>) -> Result<T::V, Failure> {
    match r {
        Ok(t) => Ok(t@),
        Err(e) => Err(e.failure()),
    }
}

/// An output format.
pub trait Target {
    /// The text to write to the target file, or `None` where this target writes nothing.
    fn convert(&self, args: &Arguments, sources: &Sources) -> Result<Option<String>, ConvertError>;
}

} // verus!
