//! The failures that parsing and conversion report.

use vstd::prelude::*;

verus! {

/// A text that could not be read as a value. It carries a description for
/// the person who wrote the text.
#[derive(Debug, PartialEq, Eq)]
pub struct ParseValueError {
    description: String,
}

impl View for ParseValueError {
    type V = Seq<char>;

    closed spec fn view(&self) -> Seq<char> {
        self.description@
    }
}

impl ParseValueError {
    /// An error that carries a copy of `msg`.
    pub fn new(msg: &str) -> (r: ParseValueError)
        ensures
            r@ == msg@,
    {
        ParseValueError { description: msg.to_owned() }
    }

    /// The description, as it is shown to a person.
    pub fn to_string(&self) -> (r: String)
        ensures
            r@ == self@,
    {
        self.description.clone()
    }
}

/// A conversion that could not be made.
#[derive(Debug, PartialEq, Eq)]
pub enum ConvertError {
    /// No unit answers to the token that the value came with.
    UnknownUnit { unit: String },
    /// The family of the value has no unit that answers to the target token.
    ConversionTarget { base_unit: String, target: String },
}

/// A `ConvertError` with its texts as sequences.
pub enum ConvertErrorView {
    UnknownUnit { unit: Seq<char> },
    ConversionTarget { base_unit: Seq<char>, target: Seq<char> },
}

impl ConvertErrorView {
    /// The message that describes the failure.
    pub open spec fn message(self) -> Seq<char> {
        match self {
            ConvertErrorView::UnknownUnit { unit } => "unknown unit: "@ + unit,
            ConvertErrorView::ConversionTarget { base_unit, target } => "failed to convert from "@
                + base_unit + " to "@ + target,
        }
    }
}

impl View for ConvertError {
    type V = ConvertErrorView;

    open spec fn view(&self) -> ConvertErrorView {
        match self {
            ConvertError::UnknownUnit { unit } => ConvertErrorView::UnknownUnit { unit: unit@ },
            ConvertError::ConversionTarget { base_unit, target } => {
                ConvertErrorView::ConversionTarget { base_unit: base_unit@, target: target@ }
            },
        }
    }
}

impl ConvertError {
    /// The message that describes the failure, as it is shown to a person.
    pub fn to_string(&self) -> (r: String)
        ensures
            r@ == self@.message(),
    {
        match self {
            ConvertError::UnknownUnit { unit } => {
                let mut out = String::from_str("unknown unit: ");
                out.append(unit.as_str());
                out
            },
            ConvertError::ConversionTarget { base_unit, target } => {
                let mut out = String::from_str("failed to convert from ");
                out.append(base_unit.as_str());
                out.append(" to ");
                out.append(target.as_str());
                out
            },
        }
    }
}

} // verus!
