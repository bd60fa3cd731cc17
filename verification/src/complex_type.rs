//! The complex type classifier.
//!
//! A complex type must carry a `name` attribute. Its body is found by
//! searching all descendants, at any depth, for the first node tagged
//! `choice`, `simpleContent` or `sequence` in document pre-order; that
//! first match governs the whole complex type and any other qualifying
//! construct in the subtree is ignored. This first-match-wins policy is
//! deliberate and preserved faithfully.

use vstd::prelude::*;

use crate::choice::spec_choice;
use crate::choice::Choice;
use crate::element::ElementView;
use crate::error::ErrorView;
use crate::error::XsdError;
use crate::sequence::spec_sequence;
use crate::sequence::Sequence;
use crate::simple_content::spec_simple_content;
use crate::simple_content::SimpleContent;
use crate::simple_content::SimpleContentView;
use crate::views::res_view;
use crate::xml::derefs;
use crate::xml::XmlNode;

verus! {

/// The body of a complex type.
#[derive(Debug, PartialEq, Eq)]
pub enum ComplexTypeKind {
    SimpleContent(SimpleContent),
    Sequence(Sequence),
    Choice(Choice),
}

/// The mathematical image of a [`ComplexTypeKind`].
pub enum ComplexTypeKindView {
    SimpleContent(SimpleContentView),
    Sequence(Seq<ElementView>),
    Choice(Seq<ElementView>),
}

impl View for ComplexTypeKind {
    type V = ComplexTypeKindView;

    open spec fn view(&self) -> ComplexTypeKindView {
        match self {
            ComplexTypeKind::SimpleContent(c) => ComplexTypeKindView::SimpleContent(c@),
            ComplexTypeKind::Sequence(s) => ComplexTypeKindView::Sequence(s@),
            ComplexTypeKind::Choice(c) => ComplexTypeKindView::Choice(c@),
        }
    }
}

/// A named complex type.
#[derive(Debug, PartialEq, Eq)]
pub struct ComplexType {
    pub name: String,
    pub kind: ComplexTypeKind,
}

/// The mathematical image of a [`ComplexType`].
pub struct ComplexTypeView {
    pub name: Seq<char>,
    pub kind: ComplexTypeKindView,
}

impl View for ComplexType {
    type V = ComplexTypeView;

    open spec fn view(&self) -> ComplexTypeView {
        ComplexTypeView { name: self.name@, kind: self.kind@ }
    }
}

/// Whether `n` qualifies as a complex type body.
pub open spec fn is_body(n: XmlNode) -> bool {
    ||| n.is_tagged("choice"@)
    ||| n.is_tagged("simpleContent"@)
    ||| n.is_tagged("sequence"@)
}

/// All qualifying body nodes among the descendants of `n` (the node itself
/// included), in document pre-order.
pub open spec fn spec_bodies(n: XmlNode) -> Seq<XmlNode>
    decreases n,
{
    let rest = spec_bodies_in(n.children@);
    if is_body(n) {
        seq![n] + rest
    } else {
        rest
    }
}

/// All qualifying body nodes among the descendants of the nodes of `ns`.
pub open spec fn spec_bodies_in(ns: Seq<XmlNode>) -> Seq<XmlNode>
    decreases ns,
{
    if ns.len() == 0 {
        Seq::empty()
    } else {
        spec_bodies_in(ns.drop_last()) + spec_bodies(ns.last())
    }
}

/// The first qualifying body node, in document pre-order, if any.
pub open spec fn spec_find_body(n: XmlNode) -> Option<XmlNode> {
    let s = spec_bodies(n);
    if s.len() == 0 {
        None
    } else {
        Some(s[0])
    }
}

/// What classifying `n` as a complex type yields.
pub open spec fn spec_complex_type(n: XmlNode) -> Result<ComplexTypeView, ErrorView> {
    match n.spec_attr("name"@) {
        None => Err(ErrorView::MissingAttribute { construct: n.tag@, attribute: "name"@ }),
        Some(nm) => match spec_find_body(n) {
            None => Err(
                ErrorView::StructuralMismatch {
                    construct: n.tag@,
                    expected: "choice, simpleContent or sequence"@,
                },
            ),
            Some(b) => if b.is_tagged("choice"@) {
                match spec_choice(b) {
                    Err(e) => Err(e),
                    Ok(es) => Ok(
                        ComplexTypeView { name: nm, kind: ComplexTypeKindView::Choice(es) },
                    ),
                }
            } else if b.is_tagged("simpleContent"@) {
                match spec_simple_content(b) {
                    Err(e) => Err(e),
                    Ok(sc) => Ok(
                        ComplexTypeView { name: nm, kind: ComplexTypeKindView::SimpleContent(sc) },
                    ),
                }
            } else {
                match spec_sequence(b) {
                    Err(e) => Err(e),
                    Ok(es) => Ok(
                        ComplexTypeView { name: nm, kind: ComplexTypeKindView::Sequence(es) },
                    ),
                }
            },
        },
    }
}

/// Collects all qualifying body nodes among the descendants of `n` (the
/// node itself included), in document pre-order.
fn collect_bodies<'a>(n: &'a XmlNode) -> (out: Vec<&'a XmlNode>)
    ensures
        derefs(out@) == spec_bodies(*n),
    decreases *n,
{
    let mut out: Vec<&'a XmlNode> = Vec::new();
    if n.has_tag_name("choice") || n.has_tag_name("simpleContent") || n.has_tag_name("sequence") {
        out.push(n);
        proof {
            assert(derefs(out@) =~= seq![*n]);
        }
    } else {
        proof {
            assert(derefs(out@) =~= Seq::<XmlNode>::empty());
        }
    }
    let ghost head = derefs(out@);
    let mut i: usize = 0;
    while i < n.children.len()
        invariant
            i <= n.children@.len(),
            derefs(out@) == head + spec_bodies_in(n.children@.subrange(0, i as int)),
        decreases n.children@.len() - i,
    {
        proof {
            assert(decreases_to!(*n => n.children));
            assert(decreases_to!(n.children => n.children@));
            assert(decreases_to!(n.children@ => n.children@[i as int]));
        }
        let mut sub = collect_bodies(&n.children[i]);
        let ghost sub_snap = derefs(sub@);
        out.append(&mut sub);
        proof {
            assert(derefs(out@) =~= head + spec_bodies_in(n.children@.subrange(0, i as int))
                + sub_snap);
            assert(n.children@.subrange(0, i + 1).drop_last() =~= n.children@.subrange(
                0,
                i as int,
            ));
            assert(n.children@.subrange(0, i + 1).last() == n.children@[i as int]);
            assert(derefs(out@) =~= head + spec_bodies_in(n.children@.subrange(0, i + 1)));
        }
        i = i + 1;
    }
    proof {
        assert(n.children@.subrange(0, n.children@.len() as int) =~= n.children@);
        if is_body(*n) {
            assert(derefs(out@) =~= spec_bodies(*n));
        } else {
            assert(head + spec_bodies_in(n.children@) =~= spec_bodies_in(n.children@));
        }
    }
    out
}

impl ComplexType {
    /// Classifies `n` as a complex type.
    pub fn from_node(n: &XmlNode) -> (r: Result<ComplexType, XsdError>)
        ensures
            res_view(r) == spec_complex_type(*n),
    {
        let name = match n.attr("name") {
            Some(v) => v.clone(),
            None => {
                return Err(
                    XsdError::MissingAttribute {
                        construct: n.tag.clone(),
                        attribute: "name".to_owned(),
                    },
                );
            },
        };
        let bodies = collect_bodies(n);
        if bodies.len() == 0 {
            return Err(
                XsdError::StructuralMismatch {
                    construct: n.tag.clone(),
                    expected: "choice, simpleContent or sequence".to_owned(),
                },
            );
        }
        let b = bodies[0];
        proof {
            assert(derefs(bodies@)[0] == *b);
        }
        if b.has_tag_name("choice") {
            match Choice::from_node(b) {
                Ok(c) => Ok(ComplexType { name, kind: ComplexTypeKind::Choice(c) }),
                Err(e) => Err(e),
            }
        } else if b.has_tag_name("simpleContent") {
            match SimpleContent::from_node(b) {
                Ok(sc) => Ok(ComplexType { name, kind: ComplexTypeKind::SimpleContent(sc) }),
                Err(e) => Err(e),
            }
        } else {
            match Sequence::from_node(b) {
                Ok(s) => Ok(ComplexType { name, kind: ComplexTypeKind::Sequence(s) }),
                Err(e) => Err(e),
            }
        }
    }
}

/// Law: when a complex type's subtree holds more than one qualifying
/// construct — a `sequence` and a `simpleContent` descendant, say — the
/// first in document pre-order governs the whole complex type.
pub proof fn lemma_first_body_governs(n: XmlNode)
    requires
        spec_bodies(n).len() > 0,
    ensures
        spec_find_body(n) == Some(spec_bodies(n)[0]),
        spec_complex_type(n) matches Ok(ct) ==> {
            let b = spec_bodies(n)[0];
            &&& (b.is_tagged("choice"@) ==> ct.kind is Choice)
            &&& (b.is_tagged("simpleContent"@) ==> ct.kind is SimpleContent)
            &&& (b.is_tagged("sequence"@) ==> ct.kind is Sequence)
        },
{
    reveal_strlit("choice");
    reveal_strlit("simpleContent");
    reveal_strlit("sequence");
    assert("choice"@.len() == 6);
    assert("simpleContent"@.len() == 13);
    assert("sequence"@.len() == 8);
}

} // verus!
