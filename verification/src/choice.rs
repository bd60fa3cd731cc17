//! The choice classifier.
//!
//! A choice groups mutually exclusive element alternatives. The produced
//! list keeps document order for determinism, but callers must treat it as
//! a set of alternatives, not an ordering guarantee.

use vstd::prelude::*;

use crate::element::elements_from_children;
use crate::element::spec_elements;
use crate::element::Element;
use crate::element::ElementView;
use crate::error::ErrorView;
use crate::error::XsdError;
use crate::views::res_view;
use crate::views::views_of;
use crate::xml::XmlNode;

verus! {

/// A grouping of mutually exclusive element alternatives.
#[derive(Debug, PartialEq, Eq)]
pub struct Choice {
    /// The alternatives, kept in document order for determinism.
    pub choices: Vec<Element>,
}

impl View for Choice {
    type V = Seq<ElementView>;

    open spec fn view(&self) -> Seq<ElementView> {
        views_of(self.choices@)
    }
}

/// What classifying `n` as a choice yields: its direct element children,
/// text nodes skipped.
pub open spec fn spec_choice(n: XmlNode) -> Result<Seq<ElementView>, ErrorView> {
    spec_elements(n.children@)
}

impl Choice {
    /// Classifies `n` as a choice.
    pub fn from_node(n: &XmlNode) -> (r: Result<Choice, XsdError>)
        ensures
            res_view(r) == spec_choice(*n),
    {
        match elements_from_children(&n.children) {
            Ok(v) => Ok(Choice { choices: v }),
            Err(e) => Err(e),
        }
    }
}

} // verus!
