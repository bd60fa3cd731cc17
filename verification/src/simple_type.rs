//! The simple type classifier.
//!
//! A simple type is a named restriction: it must carry a `name` attribute
//! and wraps the restriction found on the same node.

use vstd::prelude::*;

use crate::error::ErrorView;
use crate::error::XsdError;
use crate::restriction::spec_restriction;
use crate::restriction::Restriction;
use crate::restriction::RestrictionView;
use crate::views::res_view;
use crate::xml::XmlNode;

verus! {

/// A named simple type.
#[derive(Debug, PartialEq, Eq)]
pub enum SimpleType {
    Restriction { name: String, kind: Restriction },
}

/// The mathematical image of a [`SimpleType`].
pub enum SimpleTypeView {
    Restriction { name: Seq<char>, kind: RestrictionView },
}

impl View for SimpleType {
    type V = SimpleTypeView;

    open spec fn view(&self) -> SimpleTypeView {
        match self {
            SimpleType::Restriction { name, kind } => SimpleTypeView::Restriction {
                name: name@,
                kind: kind@,
            },
        }
    }
}

/// What classifying `n` as a simple type yields.
pub open spec fn spec_simple_type(n: XmlNode) -> Result<SimpleTypeView, ErrorView> {
    match n.spec_attr("name"@) {
        None => Err(ErrorView::MissingAttribute { construct: n.tag@, attribute: "name"@ }),
        Some(nm) => match spec_restriction(n) {
            Err(e) => Err(e),
            Ok(k) => Ok(SimpleTypeView::Restriction { name: nm, kind: k }),
        },
    }
}

impl SimpleType {
    /// Classifies `n` as a simple type.
    pub fn from_node(n: &XmlNode) -> (r: Result<SimpleType, XsdError>)
        ensures
            res_view(r) == spec_simple_type(*n),
    {
        let name = match n.attr("name") {
            Some(v) => v.clone(),
            None => {
                return Err(
                    XsdError::MissingAttribute {
                        construct: n.tag.clone(),
                        attribute: "name".to_owned(),
                    },
                );
            },
        };
        match Restriction::from_node(n) {
            Ok(k) => Ok(SimpleType::Restriction { name, kind: k }),
            Err(e) => Err(e),
        }
    }
}

} // verus!
