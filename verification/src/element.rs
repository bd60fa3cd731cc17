//! The element classifier.
//!
//! A node is either a wildcard construct (tagged `any`), which classifies to
//! [`Element::Wildcard`] unconditionally, or a named element, which must
//! carry both a `name` and a `type` attribute.

use vstd::prelude::*;

use crate::error::ErrorView;
use crate::error::XsdError;
use crate::views::lemma_views_of_push;
use crate::views::res_view;
use crate::views::views_of;
use crate::xml::non_text;
use crate::xml::XmlNode;

verus! {

/// A schema element construct.
#[derive(Debug, PartialEq, Eq)]
pub enum Element {
    /// A named element with its unresolved type reference text.
    Named { name: String, value: String },
    /// A wildcard matching any element; carries no name or type.
    Wildcard,
}

/// The mathematical image of an [`Element`].
pub enum ElementView {
    Named { name: Seq<char>, value: Seq<char> },
    Wildcard,
}

impl View for Element {
    type V = ElementView;

    open spec fn view(&self) -> ElementView {
        match self {
            Element::Named { name, value } => ElementView::Named { name: name@, value: value@ },
            Element::Wildcard => ElementView::Wildcard,
        }
    }
}

/// What classifying `n` as an element yields.
pub open spec fn spec_element(n: XmlNode) -> Result<ElementView, ErrorView> {
    if n.is_tagged("any"@) {
        Ok(ElementView::Wildcard)
    } else {
        match n.spec_attr("name"@) {
            None => Err(
                ErrorView::MissingAttribute { construct: n.tag@, attribute: "name"@ },
            ),
            Some(nm) => match n.spec_attr("type"@) {
                None => Err(
                    ErrorView::MissingAttribute { construct: n.tag@, attribute: "type"@ },
                ),
                Some(ty) => Ok(ElementView::Named { name: nm, value: ty }),
            },
        }
    }
}

/// What classifying the child list `ns` yields: text nodes are skipped,
/// every other node is classified as an element, and the first failure
/// wins.
pub open spec fn spec_elements(ns: Seq<XmlNode>) -> Result<Seq<ElementView>, ErrorView>
    decreases ns.len(),
{
    if ns.len() == 0 {
        Ok(Seq::empty())
    } else {
        match spec_elements(ns.drop_last()) {
            Err(e) => Err(e),
            Ok(rest) => if ns.last().is_text {
                Ok(rest)
            } else {
                match spec_element(ns.last()) {
                    Err(e) => Err(e),
                    Ok(el) => Ok(rest.push(el)),
                }
            },
        }
    }
}

/// Once a prefix of a child list fails to classify, the whole list fails
/// the same way.
proof fn lemma_elements_err_extend(ns: Seq<XmlNode>, i: int)
    requires
        0 <= i <= ns.len(),
        spec_elements(ns.subrange(0, i)) is Err,
    ensures
        spec_elements(ns) == spec_elements(ns.subrange(0, i)),
    decreases ns.len() - i,
{
    if i < ns.len() {
        assert(ns.subrange(0, i + 1).drop_last() =~= ns.subrange(0, i));
        lemma_elements_err_extend(ns, i + 1);
    } else {
        assert(ns.subrange(0, i) =~= ns);
    }
}

impl Element {
    /// Classifies one node as an element.
    pub fn from_node(n: &XmlNode) -> (r: Result<Element, XsdError>)
        ensures
            res_view(r) == spec_element(*n),
    {
        if n.has_tag_name("any") {
            Ok(Element::Wildcard)
        } else {
            let name = match n.attr("name") {
                Some(v) => v.clone(),
                None => {
                    return Err(
                        XsdError::MissingAttribute {
                            construct: n.tag.clone(),
                            attribute: "name".to_owned(),
                        },
                    );
                },
            };
            let value = match n.attr("type") {
                Some(v) => v.clone(),
                None => {
                    return Err(
                        XsdError::MissingAttribute {
                            construct: n.tag.clone(),
                            attribute: "type".to_owned(),
                        },
                    );
                },
            };
            Ok(Element::Named { name, value })
        }
    }
}

/// Classifies a child list: text nodes are skipped, every other node is
/// classified as an element, and the first failure wins.
pub fn elements_from_children(children: &Vec<XmlNode>) -> (r: Result<Vec<Element>, XsdError>)
    ensures
        match r {
            Ok(v) => spec_elements(children@) == Ok::<_, ErrorView>(views_of(v@)),
            Err(e) => spec_elements(children@) == Err::<Seq<ElementView>, _>(e@),
        },
{
    let mut out: Vec<Element> = Vec::new();
    proof {
        assert(children@.subrange(0, 0) =~= Seq::<XmlNode>::empty());
        assert(views_of(out@) =~= Seq::<ElementView>::empty());
    }
    let mut i: usize = 0;
    while i < children.len()
        invariant
            i <= children@.len(),
            spec_elements(children@.subrange(0, i as int)) == Ok::<_, ErrorView>(views_of(out@)),
        decreases children@.len() - i,
    {
        let c = &children[i];
        proof {
            assert(children@.subrange(0, i + 1).drop_last() =~= children@.subrange(0, i as int));
            assert(children@.subrange(0, i + 1).last() == children@[i as int]);
        }
        if !c.is_text {
            match Element::from_node(c) {
                Ok(el) => {
                    proof {
                        lemma_views_of_push(out@, el);
                    }
                    out.push(el);
                },
                Err(e) => {
                    proof {
                        lemma_elements_err_extend(children@, i + 1);
                    }
                    return Err(e);
                },
            }
        }
        i = i + 1;
    }
    proof {
        assert(children@.subrange(0, children@.len() as int) =~= children@);
    }
    Ok(out)
}

/// Law: classifying a child list preserves count and order. On success the
/// produced entries correspond one to one, in document order, to the
/// non-text children.
pub proof fn lemma_elements_order(ns: Seq<XmlNode>)
    ensures
        spec_elements(ns) matches Ok(es) ==> {
            let kids = non_text(ns);
            &&& es.len() == kids.len()
            &&& forall|i: int|
                0 <= i < kids.len() ==> Ok::<ElementView, ErrorView>(#[trigger] es[i])
                    == spec_element(kids[i])
        },
    decreases ns.len(),
{
    if ns.len() > 0 {
        lemma_elements_order(ns.drop_last());
        if spec_elements(ns) is Ok {
            let es = spec_elements(ns)->Ok_0;
            let rest = spec_elements(ns.drop_last())->Ok_0;
            let kids = non_text(ns);
            let rest_kids = non_text(ns.drop_last());
            if !ns.last().is_text {
                assert forall|i: int| 0 <= i < kids.len() implies Ok::<ElementView, ErrorView>(
                    #[trigger] es[i],
                ) == spec_element(kids[i]) by {
                    if i < kids.len() - 1 {
                        assert(es[i] == rest[i]);
                        assert(kids[i] == rest_kids[i]);
                    } else {
                        assert(es[i] == spec_element(ns.last())->Ok_0);
                        assert(kids[i] == ns.last());
                    }
                }
            }
        }
    }
}

/// Law: on success the produced entries, taken as a set, are exactly the
/// classifications of the non-text children, irrespective of order.
pub proof fn lemma_elements_membership(ns: Seq<XmlNode>)
    ensures
        spec_elements(ns) matches Ok(es) ==> forall|ev: ElementView|
            #[trigger] es.contains(ev) <==> exists|i: int|
                0 <= i < non_text(ns).len() && spec_element(#[trigger] non_text(ns)[i])
                    == Ok::<ElementView, ErrorView>(ev),
{
    lemma_elements_order(ns);
    if spec_elements(ns) is Ok {
        let es = spec_elements(ns)->Ok_0;
        let kids = non_text(ns);
        assert forall|ev: ElementView| #[trigger]
            es.contains(ev) <==> exists|i: int|
                0 <= i < kids.len() && spec_element(#[trigger] kids[i]) == Ok::<
                    ElementView,
                    ErrorView,
                >(ev) by {
            if es.contains(ev) {
                let j = choose|j: int| 0 <= j < es.len() && es[j] == ev;
                assert(spec_element(kids[j]) == Ok::<ElementView, ErrorView>(ev));
            }
            if exists|i: int|
                0 <= i < kids.len() && spec_element(#[trigger] kids[i]) == Ok::<
                    ElementView,
                    ErrorView,
                >(ev) {
                let j = choose|j: int|
                    0 <= j < kids.len() && spec_element(#[trigger] kids[j]) == Ok::<
                        ElementView,
                        ErrorView,
                    >(ev);
                assert(es[j] == ev);
                assert(es.contains(ev));
            }
        }
    }
}

/// Law: a wildcard construct classifies to `Wildcard`, irrespective of any
/// attributes present on the node.
pub proof fn lemma_wildcard_ignores_attributes(n: XmlNode)
    requires
        n.is_tagged("any"@),
    ensures
        spec_element(n) == Ok::<ElementView, ErrorView>(ElementView::Wildcard),
{
}

} // verus!
