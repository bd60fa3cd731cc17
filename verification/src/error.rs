//! The failure cases of the conversion.
//!
//! Every kind is fatal: a classifier fails fast and the first failure
//! propagates unchanged to the top of the call chain; no partial AST is
//! produced.

use vstd::prelude::*;

verus! {

/// A fatal conversion failure.
#[derive(Debug, PartialEq, Eq)]
pub enum XsdError {
    /// A required attribute was absent on a classified node. `construct` is
    /// the tag name of the node, `attribute` the name of the missing
    /// attribute.
    MissingAttribute { construct: String, attribute: String },
    /// An expected nested construct was not found. `construct` names where
    /// the search took place, `expected` what was searched for.
    StructuralMismatch { construct: String, expected: String },
    /// A restriction base type name outside the fixed resolver table.
    UnsupportedBaseType { name: String },
    /// A facet tag outside the closed facet set. Unknown facets are never
    /// ignored.
    UnsupportedFacet { tag: String },
    /// A numeric facet whose `value` attribute is not a decimal integer in
    /// the `i64` range.
    InvalidNumericFacet { tag: String, value: String },
}

/// The mathematical image of an [`XsdError`].
pub enum ErrorView {
    MissingAttribute { construct: Seq<char>, attribute: Seq<char> },
    StructuralMismatch { construct: Seq<char>, expected: Seq<char> },
    UnsupportedBaseType { name: Seq<char> },
    UnsupportedFacet { tag: Seq<char> },
    InvalidNumericFacet { tag: Seq<char>, value: Seq<char> },
}

impl View for XsdError {
    type V = ErrorView;

    open spec fn view(&self) -> ErrorView {
        match self {
            XsdError::MissingAttribute { construct, attribute } => ErrorView::MissingAttribute {
                construct: construct@,
                attribute: attribute@,
            },
            XsdError::StructuralMismatch { construct, expected } => ErrorView::StructuralMismatch {
                construct: construct@,
                expected: expected@,
            },
            XsdError::UnsupportedBaseType { name } => ErrorView::UnsupportedBaseType {
                name: name@,
            },
            XsdError::UnsupportedFacet { tag } => ErrorView::UnsupportedFacet { tag: tag@ },
            XsdError::InvalidNumericFacet { tag, value } => ErrorView::InvalidNumericFacet {
                tag: tag@,
                value: value@,
            },
        }
    }
}

} // verus!
