//! The simple content classifier.
//!
//! Simple content is a single extension: a base type extended with exactly
//! one attribute. The extension must be a direct child of the simple
//! content node, and the attribute a direct child of the extension.

use vstd::prelude::*;

use crate::attribute::Attribute;
use crate::attribute::AttributeView;
use crate::error::ErrorView;
use crate::error::XsdError;
use crate::views::res_view;
use crate::xml::XmlNode;

verus! {

/// A simple-content body: one extension of a base type by one attribute.
#[derive(Debug, PartialEq, Eq)]
pub enum SimpleContent {
    Extension { base: String, attribute: Attribute },
}

/// The mathematical image of a [`SimpleContent`].
pub enum SimpleContentView {
    Extension { base: Seq<char>, attribute: AttributeView },
}

impl View for SimpleContent {
    type V = SimpleContentView;

    open spec fn view(&self) -> SimpleContentView {
        match self {
            SimpleContent::Extension { base, attribute } => SimpleContentView::Extension {
                base: base@,
                attribute: attribute@,
            },
        }
    }
}

/// What classifying `n` as simple content yields.
pub open spec fn spec_simple_content(n: XmlNode) -> Result<SimpleContentView, ErrorView> {
    match n.spec_find_child("extension"@) {
        None => Err(ErrorView::StructuralMismatch { construct: n.tag@, expected: "extension"@ }),
        Some(ext) => match ext.spec_attr("base"@) {
            None => Err(ErrorView::MissingAttribute { construct: ext.tag@, attribute: "base"@ }),
            Some(b) => match ext.spec_find_child("attribute"@) {
                None => Err(
                    ErrorView::StructuralMismatch { construct: ext.tag@, expected: "attribute"@ },
                ),
                Some(a) => match a.spec_attr("name"@) {
                    None => Err(
                        ErrorView::MissingAttribute { construct: a.tag@, attribute: "name"@ },
                    ),
                    Some(nm) => match a.spec_attr("type"@) {
                        None => Err(
                            ErrorView::MissingAttribute { construct: a.tag@, attribute: "type"@ },
                        ),
                        Some(ty) => match a.spec_attr("use"@) {
                            None => Err(
                                ErrorView::MissingAttribute {
                                    construct: a.tag@,
                                    attribute: "use"@,
                                },
                            ),
                            Some(us) => Ok(
                                SimpleContentView::Extension {
                                    base: b,
                                    attribute: AttributeView { name: nm, ty, usage: us },
                                },
                            ),
                        },
                    },
                },
            },
        },
    }
}

impl SimpleContent {
    /// Classifies `n` as simple content.
    pub fn from_node(n: &XmlNode) -> (r: Result<SimpleContent, XsdError>)
        ensures
            res_view(r) == spec_simple_content(*n),
    {
        let ext = match n.find_child("extension") {
            Some(m) => m,
            None => {
                return Err(
                    XsdError::StructuralMismatch {
                        construct: n.tag.clone(),
                        expected: "extension".to_owned(),
                    },
                );
            },
        };
        let base = match ext.attr("base") {
            Some(v) => v.clone(),
            None => {
                return Err(
                    XsdError::MissingAttribute {
                        construct: ext.tag.clone(),
                        attribute: "base".to_owned(),
                    },
                );
            },
        };
        let a = match ext.find_child("attribute") {
            Some(m) => m,
            None => {
                return Err(
                    XsdError::StructuralMismatch {
                        construct: ext.tag.clone(),
                        expected: "attribute".to_owned(),
                    },
                );
            },
        };
        let name = match a.attr("name") {
            Some(v) => v.clone(),
            None => {
                return Err(
                    XsdError::MissingAttribute {
                        construct: a.tag.clone(),
                        attribute: "name".to_owned(),
                    },
                );
            },
        };
        let ty = match a.attr("type") {
            Some(v) => v.clone(),
            None => {
                return Err(
                    XsdError::MissingAttribute {
                        construct: a.tag.clone(),
                        attribute: "type".to_owned(),
                    },
                );
            },
        };
        let usage = match a.attr("use") {
            Some(v) => v.clone(),
            None => {
                return Err(
                    XsdError::MissingAttribute {
                        construct: a.tag.clone(),
                        attribute: "use".to_owned(),
                    },
                );
            },
        };
        Ok(SimpleContent::Extension { base, attribute: Attribute { name, ty, usage } })
    }
}

} // verus!
