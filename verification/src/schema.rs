//! The schema assembler.
//!
//! Three independent full-document scans, each over all descendants of the
//! document root in pre-order: every node tagged `complexType` is
//! classified, every node tagged `simpleType` is classified, and the first
//! node tagged `element` becomes the schema's root element. A construct
//! nested inside another is still picked up, so root-element selection is
//! document-order-first-match on purpose; a document with no element
//! construct cannot be represented.

use vstd::prelude::*;

use crate::complex_type::spec_complex_type;
use crate::complex_type::ComplexType;
use crate::complex_type::ComplexTypeView;
use crate::element::spec_element;
use crate::element::Element;
use crate::element::ElementView;
use crate::error::ErrorView;
use crate::error::XsdError;
use crate::simple_type::spec_simple_type;
use crate::simple_type::SimpleType;
use crate::simple_type::SimpleTypeView;
use crate::views::lemma_views_of_push;
use crate::views::res_view;
use crate::views::views_of;
use crate::xml::collect_tagged;
use crate::xml::derefs;
use crate::xml::find_tagged;
use crate::xml::spec_tagged;
use crate::xml::XmlNode;

verus! {

/// The aggregate root of the produced AST.
#[derive(Debug, PartialEq, Eq)]
pub struct Schema {
    /// The root element: the first element construct in document pre-order.
    pub element: Element,
    /// All complex types, in document order.
    pub complex_types: Vec<ComplexType>,
    /// All simple types, in document order.
    pub simple_types: Vec<SimpleType>,
}

/// The mathematical image of a [`Schema`].
pub struct SchemaView {
    pub element: ElementView,
    pub complex_types: Seq<ComplexTypeView>,
    pub simple_types: Seq<SimpleTypeView>,
}

impl View for Schema {
    type V = SchemaView;

    open spec fn view(&self) -> SchemaView {
        SchemaView {
            element: self.element@,
            complex_types: views_of(self.complex_types@),
            simple_types: views_of(self.simple_types@),
        }
    }
}

/// Classifies every node of `ns` as a complex type; the first failure
/// wins.
pub open spec fn map_complex(ns: Seq<XmlNode>) -> Result<Seq<ComplexTypeView>, ErrorView>
    decreases ns.len(),
{
    if ns.len() == 0 {
        Ok(Seq::empty())
    } else {
        match map_complex(ns.drop_last()) {
            Err(e) => Err(e),
            Ok(rest) => match spec_complex_type(ns.last()) {
                Err(e) => Err(e),
                Ok(ct) => Ok(rest.push(ct)),
            },
        }
    }
}

/// Classifies every node of `ns` as a simple type; the first failure wins.
pub open spec fn map_simple(ns: Seq<XmlNode>) -> Result<Seq<SimpleTypeView>, ErrorView>
    decreases ns.len(),
{
    if ns.len() == 0 {
        Ok(Seq::empty())
    } else {
        match map_simple(ns.drop_last()) {
            Err(e) => Err(e),
            Ok(rest) => match spec_simple_type(ns.last()) {
                Err(e) => Err(e),
                Ok(st) => Ok(rest.push(st)),
            },
        }
    }
}

/// What assembling the whole document yields.
pub open spec fn spec_schema(root: XmlNode) -> Result<SchemaView, ErrorView> {
    match map_complex(spec_tagged(root, "complexType"@)) {
        Err(e) => Err(e),
        Ok(cts) => match map_simple(spec_tagged(root, "simpleType"@)) {
            Err(e) => Err(e),
            Ok(sts) => {
                let els = spec_tagged(root, "element"@);
                if els.len() == 0 {
                    Err(ErrorView::StructuralMismatch { construct: "schema"@, expected: "element"@ })
                } else {
                    match spec_element(els[0]) {
                        Err(e) => Err(e),
                        Ok(el) => Ok(
                            SchemaView { element: el, complex_types: cts, simple_types: sts },
                        ),
                    }
                }
            },
        },
    }
}

proof fn lemma_map_complex_err_extend(ns: Seq<XmlNode>, i: int)
    requires
        0 <= i <= ns.len(),
        map_complex(ns.subrange(0, i)) is Err,
    ensures
        map_complex(ns) == map_complex(ns.subrange(0, i)),
    decreases ns.len() - i,
{
    if i < ns.len() {
        assert(ns.subrange(0, i + 1).drop_last() =~= ns.subrange(0, i));
        lemma_map_complex_err_extend(ns, i + 1);
    } else {
        assert(ns.subrange(0, i) =~= ns);
    }
}

proof fn lemma_map_simple_err_extend(ns: Seq<XmlNode>, i: int)
    requires
        0 <= i <= ns.len(),
        map_simple(ns.subrange(0, i)) is Err,
    ensures
        map_simple(ns) == map_simple(ns.subrange(0, i)),
    decreases ns.len() - i,
{
    if i < ns.len() {
        assert(ns.subrange(0, i + 1).drop_last() =~= ns.subrange(0, i));
        lemma_map_simple_err_extend(ns, i + 1);
    } else {
        assert(ns.subrange(0, i) =~= ns);
    }
}

impl Schema {
    /// Assembles the schema from the document root.
    #[verifier::rlimit(50)]
    pub fn from_node(root: &XmlNode) -> (r: Result<Schema, XsdError>)
        ensures
            res_view(r) == spec_schema(*root),
    {
        let ghost ct_nodes = spec_tagged(*root, "complexType"@);
        let ct_found = collect_tagged(root, "complexType");
        let mut complex_types: Vec<ComplexType> = Vec::new();
        proof {
            assert(ct_nodes.subrange(0, 0) =~= Seq::<XmlNode>::empty());
            assert(views_of(complex_types@) =~= Seq::<ComplexTypeView>::empty());
        }
        let mut i: usize = 0;
        while i < ct_found.len()
            invariant
                i <= ct_found@.len(),
                derefs(ct_found@) == ct_nodes,
                ct_nodes == spec_tagged(*root, "complexType"@),
                map_complex(ct_nodes.subrange(0, i as int)) == Ok::<_, ErrorView>(
                    views_of(complex_types@),
                ),
            decreases ct_found@.len() - i,
        {
            let c = ct_found[i];
            proof {
                assert(*ct_found@[i as int] == derefs(ct_found@)[i as int]);
                assert(ct_nodes.subrange(0, i + 1).drop_last() =~= ct_nodes.subrange(0, i as int));
                assert(ct_nodes.subrange(0, i + 1).last() == ct_nodes[i as int]);
            }
            match ComplexType::from_node(c) {
                Ok(ct) => {
                    proof {
                        lemma_views_of_push(complex_types@, ct);
                    }
                    complex_types.push(ct);
                },
                Err(e) => {
                    proof {
                        lemma_map_complex_err_extend(ct_nodes, i + 1);
                    }
                    return Err(e);
                },
            }
            i = i + 1;
        }
        proof {
            assert(ct_nodes.subrange(0, ct_nodes.len() as int) =~= ct_nodes);
        }
        let ghost st_nodes = spec_tagged(*root, "simpleType"@);
        let st_found = collect_tagged(root, "simpleType");
        let mut simple_types: Vec<SimpleType> = Vec::new();
        proof {
            assert(st_nodes.subrange(0, 0) =~= Seq::<XmlNode>::empty());
            assert(views_of(simple_types@) =~= Seq::<SimpleTypeView>::empty());
        }
        let mut j: usize = 0;
        while j < st_found.len()
            invariant
                j <= st_found@.len(),
                derefs(st_found@) == st_nodes,
                st_nodes == spec_tagged(*root, "simpleType"@),
                map_complex(spec_tagged(*root, "complexType"@)) == Ok::<_, ErrorView>(
                    views_of(complex_types@),
                ),
                map_simple(st_nodes.subrange(0, j as int)) == Ok::<_, ErrorView>(
                    views_of(simple_types@),
                ),
            decreases st_found@.len() - j,
        {
            let c = st_found[j];
            proof {
                assert(*st_found@[j as int] == derefs(st_found@)[j as int]);
                assert(st_nodes.subrange(0, j + 1).drop_last() =~= st_nodes.subrange(0, j as int));
                assert(st_nodes.subrange(0, j + 1).last() == st_nodes[j as int]);
            }
            match SimpleType::from_node(c) {
                Ok(st) => {
                    proof {
                        lemma_views_of_push(simple_types@, st);
                    }
                    simple_types.push(st);
                },
                Err(e) => {
                    proof {
                        lemma_map_simple_err_extend(st_nodes, j + 1);
                    }
                    return Err(e);
                },
            }
            j = j + 1;
        }
        proof {
            assert(st_nodes.subrange(0, st_nodes.len() as int) =~= st_nodes);
        }
        let en = match find_tagged(root, "element") {
            Some(m) => m,
            None => {
                return Err(
                    XsdError::StructuralMismatch {
                        construct: "schema".to_owned(),
                        expected: "element".to_owned(),
                    },
                );
            },
        };
        let element = match Element::from_node(en) {
            Ok(el) => el,
            Err(e) => {
                return Err(e);
            },
        };
        Ok(Schema { element, complex_types, simple_types })
    }
}

/// Law: the produced schema's root element is the classification of the
/// first element construct in document pre-order; a document with no
/// element construct always fails, and fails with `StructuralMismatch`
/// when both type scans succeed.
pub proof fn lemma_schema_root_element(root: XmlNode)
    ensures
        spec_schema(root) matches Ok(s) ==> {
            let els = spec_tagged(root, "element"@);
            &&& els.len() > 0
            &&& Ok::<ElementView, ErrorView>(s.element) == spec_element(els[0])
        },
        spec_tagged(root, "element"@).len() == 0 ==> spec_schema(root) is Err,
        (spec_tagged(root, "element"@).len() == 0 && map_complex(
            spec_tagged(root, "complexType"@),
        ) is Ok && map_simple(spec_tagged(root, "simpleType"@)) is Ok) ==> spec_schema(root)
            == Err::<SchemaView, _>(
            ErrorView::StructuralMismatch { construct: "schema"@, expected: "element"@ },
        ),
{
}

/// Law: the produced type lists follow document order: entry `i` of each
/// list is the classification of the `i`-th construct of its kind in
/// document pre-order.
pub proof fn lemma_schema_type_order(root: XmlNode)
    ensures
        spec_schema(root) matches Ok(s) ==> {
            let cts = spec_tagged(root, "complexType"@);
            let sts = spec_tagged(root, "simpleType"@);
            &&& s.complex_types.len() == cts.len()
            &&& forall|i: int|
                0 <= i < cts.len() ==> Ok::<ComplexTypeView, ErrorView>(
                    #[trigger] s.complex_types[i],
                ) == spec_complex_type(cts[i])
            &&& s.simple_types.len() == sts.len()
            &&& forall|i: int|
                0 <= i < sts.len() ==> Ok::<SimpleTypeView, ErrorView>(#[trigger] s.simple_types[i])
                    == spec_simple_type(sts[i])
        },
{
    if spec_schema(root) is Ok {
        lemma_map_complex_order(spec_tagged(root, "complexType"@));
        lemma_map_simple_order(spec_tagged(root, "simpleType"@));
    }
}

proof fn lemma_map_complex_order(ns: Seq<XmlNode>)
    ensures
        map_complex(ns) matches Ok(cs) ==> {
            &&& cs.len() == ns.len()
            &&& forall|i: int|
                0 <= i < ns.len() ==> Ok::<ComplexTypeView, ErrorView>(#[trigger] cs[i])
                    == spec_complex_type(ns[i])
        },
    decreases ns.len(),
{
    if ns.len() > 0 {
        lemma_map_complex_order(ns.drop_last());
    }
}

proof fn lemma_map_simple_order(ns: Seq<XmlNode>)
    ensures
        map_simple(ns) matches Ok(ss) ==> {
            &&& ss.len() == ns.len()
            &&& forall|i: int|
                0 <= i < ns.len() ==> Ok::<SimpleTypeView, ErrorView>(#[trigger] ss[i])
                    == spec_simple_type(ns[i])
        },
    decreases ns.len(),
{
    if ns.len() > 0 {
        lemma_map_simple_order(ns.drop_last());
    }
}

} // verus!
