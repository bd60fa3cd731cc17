//! The restriction and facet classifiers.
//!
//! A restriction narrows a base primitive by an ordered list of facets. The
//! facet set is closed: a tag outside it is a hard failure, never a
//! silently dropped case.

use vstd::prelude::*;

use crate::error::ErrorView;
use crate::error::XsdError;
use crate::numeric::int_value;
use crate::numeric::parse_i64;
use crate::numeric::parses_to_i64;
use crate::resolve::resolve_base;
use crate::resolve::spec_resolve;
use crate::views::lemma_views_of_push;
use crate::views::res_view;
use crate::views::views_of;
use crate::xml::find_tagged;
use crate::xml::non_text;
use crate::xml::spec_find_tagged;
use crate::xml::str_eq;
use crate::xml::XmlNode;

verus! {

/// A single facet of a restriction.
#[derive(Debug, PartialEq, Eq)]
pub enum RestrictionKind {
    FractionDigits(i64),
    TotalDigits(i64),
    MinInclusive(i64),
    MinLength(i64),
    MaxLength(i64),
    Pattern(String),
    Enumeration(String),
}

/// The mathematical image of a [`RestrictionKind`].
pub enum RestrictionKindView {
    FractionDigits(int),
    TotalDigits(int),
    MinInclusive(int),
    MinLength(int),
    MaxLength(int),
    Pattern(Seq<char>),
    Enumeration(Seq<char>),
}

impl View for RestrictionKind {
    type V = RestrictionKindView;

    open spec fn view(&self) -> RestrictionKindView {
        match self {
            RestrictionKind::FractionDigits(v) => RestrictionKindView::FractionDigits(*v as int),
            RestrictionKind::TotalDigits(v) => RestrictionKindView::TotalDigits(*v as int),
            RestrictionKind::MinInclusive(v) => RestrictionKindView::MinInclusive(*v as int),
            RestrictionKind::MinLength(v) => RestrictionKindView::MinLength(*v as int),
            RestrictionKind::MaxLength(v) => RestrictionKindView::MaxLength(*v as int),
            RestrictionKind::Pattern(s) => RestrictionKindView::Pattern(s@),
            RestrictionKind::Enumeration(s) => RestrictionKindView::Enumeration(s@),
        }
    }
}

/// A base primitive narrowed by an ordered list of facets.
#[derive(Debug, PartialEq, Eq)]
pub struct Restriction {
    /// The resolved host primitive name.
    pub base: String,
    /// The facets, in document order of the facet children.
    pub restrictions: Vec<RestrictionKind>,
}

/// The mathematical image of a [`Restriction`].
pub struct RestrictionView {
    pub base: Seq<char>,
    pub restrictions: Seq<RestrictionKindView>,
}

impl View for Restriction {
    type V = RestrictionView;

    open spec fn view(&self) -> RestrictionView {
        RestrictionView { base: self.base@, restrictions: views_of(self.restrictions@) }
    }
}

/// Whether `t` is one of the facet tags whose value is a decimal integer.
pub open spec fn is_numeric_facet_tag(t: Seq<char>) -> bool {
    ||| t == "fractionDigits"@
    ||| t == "totalDigits"@
    ||| t == "minInclusive"@
    ||| t == "minLength"@
    ||| t == "maxLength"@
}

/// The numeric facet for tag `t` with value `v`.
pub open spec fn numeric_facet(t: Seq<char>, v: int) -> RestrictionKindView {
    if t == "fractionDigits"@ {
        RestrictionKindView::FractionDigits(v)
    } else if t == "totalDigits"@ {
        RestrictionKindView::TotalDigits(v)
    } else if t == "minInclusive"@ {
        RestrictionKindView::MinInclusive(v)
    } else if t == "minLength"@ {
        RestrictionKindView::MinLength(v)
    } else {
        RestrictionKindView::MaxLength(v)
    }
}

/// What classifying `n` as a facet yields. The facet set is closed: numeric
/// facets parse their `value` attribute as an integer, string facets take
/// it verbatim, and any other tag fails.
pub open spec fn spec_facet(n: XmlNode) -> Result<RestrictionKindView, ErrorView> {
    let t = n.tag@;
    if is_numeric_facet_tag(t) {
        match n.spec_attr("value"@) {
            None => Err(ErrorView::MissingAttribute { construct: t, attribute: "value"@ }),
            Some(v) => if parses_to_i64(v) {
                Ok(numeric_facet(t, int_value(v)))
            } else {
                Err(ErrorView::InvalidNumericFacet { tag: t, value: v })
            },
        }
    } else if t == "pattern"@ {
        match n.spec_attr("value"@) {
            None => Err(ErrorView::MissingAttribute { construct: t, attribute: "value"@ }),
            Some(v) => Ok(RestrictionKindView::Pattern(v)),
        }
    } else if t == "enumeration"@ {
        match n.spec_attr("value"@) {
            None => Err(ErrorView::MissingAttribute { construct: t, attribute: "value"@ }),
            Some(v) => Ok(RestrictionKindView::Enumeration(v)),
        }
    } else {
        Err(ErrorView::UnsupportedFacet { tag: t })
    }
}

/// What classifying the facet children `ns` yields: text nodes are
/// skipped, every other node is classified as a facet, and the first
/// failure wins.
pub open spec fn spec_facets(ns: Seq<XmlNode>) -> Result<Seq<RestrictionKindView>, ErrorView>
    decreases ns.len(),
{
    if ns.len() == 0 {
        Ok(Seq::empty())
    } else {
        match spec_facets(ns.drop_last()) {
            Err(e) => Err(e),
            Ok(rest) => if ns.last().is_text {
                Ok(rest)
            } else {
                match spec_facet(ns.last()) {
                    Err(e) => Err(e),
                    Ok(f) => Ok(rest.push(f)),
                }
            },
        }
    }
}

/// What classifying `n` as a restriction yields: the first descendant
/// tagged `restriction` (in document pre-order, the node itself included)
/// governs; its `base` attribute is resolved through the fixed table and
/// its element children are the facets.
pub open spec fn spec_restriction(n: XmlNode) -> Result<RestrictionView, ErrorView> {
    match spec_find_tagged(n, "restriction"@) {
        None => Err(ErrorView::StructuralMismatch { construct: n.tag@, expected: "restriction"@ }),
        Some(rn) => match rn.spec_attr("base"@) {
            None => Err(ErrorView::MissingAttribute { construct: rn.tag@, attribute: "base"@ }),
            Some(b) => match spec_resolve(b) {
                None => Err(ErrorView::UnsupportedBaseType { name: b }),
                Some(prim) => match spec_facets(rn.children@) {
                    Err(e) => Err(e),
                    Ok(fs) => Ok(RestrictionView { base: prim, restrictions: fs }),
                },
            },
        },
    }
}

proof fn lemma_facets_err_extend(ns: Seq<XmlNode>, i: int)
    requires
        0 <= i <= ns.len(),
        spec_facets(ns.subrange(0, i)) is Err,
    ensures
        spec_facets(ns) == spec_facets(ns.subrange(0, i)),
    decreases ns.len() - i,
{
    if i < ns.len() {
        assert(ns.subrange(0, i + 1).drop_last() =~= ns.subrange(0, i));
        lemma_facets_err_extend(ns, i + 1);
    } else {
        assert(ns.subrange(0, i) =~= ns);
    }
}

impl RestrictionKind {
    /// Reads and parses the `value` attribute of a numeric facet node.
    fn numeric_value(n: &XmlNode) -> (r: Result<i64, XsdError>)
        ensures
            match r {
                Ok(v) => n.spec_attr("value"@) matches Some(s) && parses_to_i64(s) && v as int
                    == int_value(s),
                Err(e) => match n.spec_attr("value"@) {
                    None => e@ == (ErrorView::MissingAttribute {
                        construct: n.tag@,
                        attribute: "value"@,
                    }),
                    Some(s) => !parses_to_i64(s) && e@ == (ErrorView::InvalidNumericFacet {
                        tag: n.tag@,
                        value: s,
                    }),
                },
            },
    {
        match n.attr("value") {
            None => Err(
                XsdError::MissingAttribute {
                    construct: n.tag.clone(),
                    attribute: "value".to_owned(),
                },
            ),
            Some(v) => match parse_i64(v.as_str()) {
                Some(i) => Ok(i),
                None => Err(
                    XsdError::InvalidNumericFacet { tag: n.tag.clone(), value: v.clone() },
                ),
            },
        }
    }

    /// Classifies one node as a facet.
    pub fn from_node(n: &XmlNode) -> (r: Result<RestrictionKind, XsdError>)
        ensures
            res_view(r) == spec_facet(*n),
    {
        if str_eq(n.tag.as_str(), "fractionDigits") {
            match Self::numeric_value(n) {
                Ok(v) => Ok(RestrictionKind::FractionDigits(v)),
                Err(e) => Err(e),
            }
        } else if str_eq(n.tag.as_str(), "totalDigits") {
            match Self::numeric_value(n) {
                Ok(v) => Ok(RestrictionKind::TotalDigits(v)),
                Err(e) => Err(e),
            }
        } else if str_eq(n.tag.as_str(), "minInclusive") {
            match Self::numeric_value(n) {
                Ok(v) => Ok(RestrictionKind::MinInclusive(v)),
                Err(e) => Err(e),
            }
        } else if str_eq(n.tag.as_str(), "minLength") {
            match Self::numeric_value(n) {
                Ok(v) => Ok(RestrictionKind::MinLength(v)),
                Err(e) => Err(e),
            }
        } else if str_eq(n.tag.as_str(), "maxLength") {
            match Self::numeric_value(n) {
                Ok(v) => Ok(RestrictionKind::MaxLength(v)),
                Err(e) => Err(e),
            }
        } else if str_eq(n.tag.as_str(), "pattern") {
            match n.attr("value") {
                Some(v) => Ok(RestrictionKind::Pattern(v.clone())),
                None => Err(
                    XsdError::MissingAttribute {
                        construct: n.tag.clone(),
                        attribute: "value".to_owned(),
                    },
                ),
            }
        } else if str_eq(n.tag.as_str(), "enumeration") {
            match n.attr("value") {
                Some(v) => Ok(RestrictionKind::Enumeration(v.clone())),
                None => Err(
                    XsdError::MissingAttribute {
                        construct: n.tag.clone(),
                        attribute: "value".to_owned(),
                    },
                ),
            }
        } else {
            Err(XsdError::UnsupportedFacet { tag: n.tag.clone() })
        }
    }
}

/// Classifies the facet children of a restriction node: text nodes are
/// skipped, every other node is classified as a facet, and the first
/// failure wins.
fn facets_from_children(children: &Vec<XmlNode>) -> (r: Result<Vec<RestrictionKind>, XsdError>)
    ensures
        match r {
            Ok(v) => spec_facets(children@) == Ok::<_, ErrorView>(views_of(v@)),
            Err(e) => spec_facets(children@) == Err::<Seq<RestrictionKindView>, _>(e@),
        },
{
    let mut out: Vec<RestrictionKind> = Vec::new();
    proof {
        assert(children@.subrange(0, 0) =~= Seq::<XmlNode>::empty());
        assert(views_of(out@) =~= Seq::<RestrictionKindView>::empty());
    }
    let mut i: usize = 0;
    while i < children.len()
        invariant
            i <= children@.len(),
            spec_facets(children@.subrange(0, i as int)) == Ok::<_, ErrorView>(views_of(out@)),
        decreases children@.len() - i,
    {
        let c = &children[i];
        proof {
            assert(children@.subrange(0, i + 1).drop_last() =~= children@.subrange(0, i as int));
            assert(children@.subrange(0, i + 1).last() == children@[i as int]);
        }
        if !c.is_text {
            match RestrictionKind::from_node(c) {
                Ok(f) => {
                    proof {
                        lemma_views_of_push(out@, f);
                    }
                    out.push(f);
                },
                Err(e) => {
                    proof {
                        lemma_facets_err_extend(children@, i + 1);
                    }
                    return Err(e);
                },
            }
        }
        i = i + 1;
    }
    proof {
        assert(children@.subrange(0, children@.len() as int) =~= children@);
    }
    Ok(out)
}

impl Restriction {
    /// Classifies `n` as a restriction.
    pub fn from_node(n: &XmlNode) -> (r: Result<Restriction, XsdError>)
        ensures
            res_view(r) == spec_restriction(*n),
    {
        let rn = match find_tagged(n, "restriction") {
            Some(m) => m,
            None => {
                return Err(
                    XsdError::StructuralMismatch {
                        construct: n.tag.clone(),
                        expected: "restriction".to_owned(),
                    },
                );
            },
        };
        let base = match rn.attr("base") {
            Some(b) => b,
            None => {
                return Err(
                    XsdError::MissingAttribute {
                        construct: rn.tag.clone(),
                        attribute: "base".to_owned(),
                    },
                );
            },
        };
        let prim = match resolve_base(base.as_str()) {
            Ok(p) => p,
            Err(e) => {
                return Err(e);
            },
        };
        match facets_from_children(&rn.children) {
            Ok(fs) => Ok(Restriction { base: prim, restrictions: fs }),
            Err(e) => Err(e),
        }
    }
}

/// Law: classifying a facet child list preserves count and order. On
/// success the produced facets correspond one to one, in document order,
/// to the non-text children.
pub proof fn lemma_facets_order(ns: Seq<XmlNode>)
    ensures
        spec_facets(ns) matches Ok(fs) ==> {
            let kids = non_text(ns);
            &&& fs.len() == kids.len()
            &&& forall|i: int|
                0 <= i < kids.len() ==> Ok::<RestrictionKindView, ErrorView>(#[trigger] fs[i])
                    == spec_facet(kids[i])
        },
    decreases ns.len(),
{
    if ns.len() > 0 {
        lemma_facets_order(ns.drop_last());
        if spec_facets(ns) is Ok {
            let fs = spec_facets(ns)->Ok_0;
            let rest = spec_facets(ns.drop_last())->Ok_0;
            let kids = non_text(ns);
            let rest_kids = non_text(ns.drop_last());
            if !ns.last().is_text {
                assert forall|i: int| 0 <= i < kids.len() implies Ok::<
                    RestrictionKindView,
                    ErrorView,
                >(#[trigger] fs[i]) == spec_facet(kids[i]) by {
                    if i < kids.len() - 1 {
                        assert(fs[i] == rest[i]);
                        assert(kids[i] == rest_kids[i]);
                    } else {
                        assert(fs[i] == spec_facet(ns.last())->Ok_0);
                        assert(kids[i] == ns.last());
                    }
                }
            }
        }
    }
}

/// Law: a successfully classified restriction holds exactly one facet per
/// facet child element of the governing restriction node, in document
/// order.
pub proof fn lemma_restriction_facet_order(n: XmlNode)
    ensures
        spec_restriction(n) matches Ok(rv) ==> {
            let rn = spec_find_tagged(n, "restriction"@)->Some_0;
            let kids = non_text(rn.children@);
            &&& rv.restrictions.len() == kids.len()
            &&& forall|i: int|
                0 <= i < kids.len() ==> Ok::<RestrictionKindView, ErrorView>(
                    #[trigger] rv.restrictions[i],
                ) == spec_facet(kids[i])
        },
{
    if spec_restriction(n) is Ok {
        let rn = spec_find_tagged(n, "restriction"@)->Some_0;
        lemma_facets_order(rn.children@);
    }
}

/// Law: for a numeric facet, a missing `value` attribute, a non-integer
/// value and an integer value each classify as documented; a valid value
/// round-trips exactly.
pub proof fn lemma_numeric_facet(n: XmlNode)
    requires
        is_numeric_facet_tag(n.tag@),
    ensures
        match n.spec_attr("value"@) {
            None => spec_facet(n) == Err::<RestrictionKindView, _>(
                ErrorView::MissingAttribute { construct: n.tag@, attribute: "value"@ },
            ),
            Some(v) => if parses_to_i64(v) {
                spec_facet(n) == Ok::<_, ErrorView>(numeric_facet(n.tag@, int_value(v)))
            } else {
                spec_facet(n) == Err::<RestrictionKindView, _>(
                    ErrorView::InvalidNumericFacet { tag: n.tag@, value: v },
                )
            },
        },
{
}

/// Law: a restriction whose governing node names a base type outside the
/// fixed table fails with `UnsupportedBaseType`; no partial restriction is
/// produced.
pub proof fn lemma_unsupported_base(n: XmlNode)
    requires
        spec_find_tagged(n, "restriction"@) matches Some(rn) && rn.spec_attr("base"@) matches Some(
            b,
        ) && spec_resolve(b) is None,
    ensures
        spec_restriction(n) == Err::<RestrictionView, _>(
            ErrorView::UnsupportedBaseType {
                name: spec_find_tagged(n, "restriction"@)->Some_0.spec_attr("base"@)->Some_0,
            },
        ),
{
}

} // verus!
