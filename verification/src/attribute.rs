//! The attribute declaration carried by a simple-content extension.

use vstd::prelude::*;

verus! {

/// An attribute declaration: name, unresolved type reference text and the
/// use policy, all carried verbatim. The use policy is not validated
/// against its closed set here.
#[derive(Debug, PartialEq, Eq)]
pub struct Attribute {
    pub name: String,
    /// The type reference text, left unresolved.
    pub ty: String,
    /// The use policy text (`required`, `optional` or `prohibited` in
    /// well-formed schemas), carried verbatim.
    pub usage: String,
}

/// The mathematical image of an [`Attribute`].
pub struct AttributeView {
    pub name: Seq<char>,
    pub ty: Seq<char>,
    pub usage: Seq<char>,
}

impl View for Attribute {
    type V = AttributeView;

    open spec fn view(&self) -> AttributeView {
        AttributeView { name: self.name@, ty: self.ty@, usage: self.usage@ }
    }
}

} // verus!
