//! The sequence classifier.
//!
//! A sequence groups its element children in document order; the order is
//! semantically significant and drives generated field order downstream.

use vstd::prelude::*;

use crate::element::elements_from_children;
use crate::element::spec_elements;
use crate::element::Element;
use crate::element::ElementView;
use crate::error::ErrorView;
use crate::error::XsdError;
use crate::views::res_view;
use crate::views::views_of;
use crate::xml::XmlNode;

verus! {

/// An ordered grouping of elements.
#[derive(Debug, PartialEq, Eq)]
pub struct Sequence {
    /// The elements, in document order.
    pub elements: Vec<Element>,
}

impl View for Sequence {
    type V = Seq<ElementView>;

    open spec fn view(&self) -> Seq<ElementView> {
        views_of(self.elements@)
    }
}

/// What classifying `n` as a sequence yields: its direct element children,
/// in document order, text nodes skipped.
pub open spec fn spec_sequence(n: XmlNode) -> Result<Seq<ElementView>, ErrorView> {
    spec_elements(n.children@)
}

impl Sequence {
    /// Classifies `n` as a sequence.
    pub fn from_node(n: &XmlNode) -> (r: Result<Sequence, XsdError>)
        ensures
            res_view(r) == spec_sequence(*n),
    {
        match elements_from_children(&n.children) {
            Ok(v) => Ok(Sequence { elements: v }),
            Err(e) => Err(e),
        }
    }
}

} // verus!
