//! Error types for attribute parsing and node validation.

use vstd::prelude::*;
use vstd::string::StringExecFns;

use crate::attributes::Attribute;

verus! {

/// A description of why a string failed to parse.
#[derive(Debug)]
pub struct ParseError {
    pub description: String,
}

impl ParseError {
    /// Builds a parse error with the given description.
    pub fn new(description: &str) -> (r: ParseError)
        ensures
            r.description@ == description@,
    {
        ParseError { description: String::from_str(description) }
    }
}

/// Why an attribute value was rejected: it failed to parse.
#[derive(Debug)]
pub enum AttributeError {
    Parse(ParseError),
}

impl AttributeError {
    /// The error every rejected keyword or malformed number reports.
    pub open spec fn is_invalid_value(self) -> bool {
        self is Parse && self->Parse_0.description@ == "invalid value"@
    }

    /// Builds the error for a value that does not parse.
    pub fn invalid_value() -> (r: AttributeError)
        ensures
            r.is_invalid_value(),
    {
        AttributeError::Parse(ParseError::new("invalid value"))
    }
}

/// The error recorded on a node whose attributes failed to validate: the
/// first failing attribute, and why it failed.
#[derive(Debug)]
pub struct NodeError {
    pub attribute: Attribute,
    pub error: AttributeError,
}

/// A failure during rendering: a transform composition or a resolved
/// quantity left the representable range of the rational coefficients.
#[derive(Clone, Copy, Debug, PartialEq, Eq, Structural)]
pub enum RenderError {
    Overflow,
}

impl Clone for ParseError {
    /// An exact copy.
    fn clone(&self) -> (r: ParseError)
        ensures
            r == *self,
    {
        ParseError { description: self.description.clone() }
    }
}

impl Clone for AttributeError {
    /// An exact copy.
    fn clone(&self) -> (r: AttributeError)
        ensures
            r == *self,
    {
        match self {
            AttributeError::Parse(p) => AttributeError::Parse(p.clone()),
        }
    }
}

impl Clone for NodeError {
    /// An exact copy.
    fn clone(&self) -> (r: NodeError)
        ensures
            r == *self,
    {
        NodeError { attribute: self.attribute, error: self.error.clone() }
    }
}

} // verus!
