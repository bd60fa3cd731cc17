//! The document tree the classifiers walk.
//!
//! A schema document arrives as a read-only tree of nodes. The classifiers
//! only ever look at four things: whether a node is a text node, its tag
//! name, its attributes and its children, so the tree holds exactly those as
//! plain values. Tag names are the local names as written in the document;
//! no namespace resolution takes place.

use vstd::prelude::*;

verus! {

/// One attribute of an element node: its name and its value, both verbatim.
#[derive(Debug)]
pub struct XmlAttribute {
    pub name: String,
    pub value: String,
}

/// One node of the document tree.
///
/// A text node (`is_text`) is never classified; the walks skip it. For text
/// nodes `tag`, `attributes` and `children` carry no meaning and are left
/// empty by the loader.
#[derive(Debug)]
pub struct XmlNode {
    pub is_text: bool,
    pub tag: String,
    pub attributes: Vec<XmlAttribute>,
    pub children: Vec<XmlNode>,
}

/// The values of all attributes named `name`, in document order.
pub open spec fn attrs_named(attrs: Seq<XmlAttribute>, name: Seq<char>) -> Seq<Seq<char>>
    decreases attrs.len(),
{
    if attrs.len() == 0 {
        Seq::empty()
    } else {
        let rest = attrs_named(attrs.drop_last(), name);
        if attrs.last().name@ == name {
            rest.push(attrs.last().value@)
        } else {
            rest
        }
    }
}

proof fn lemma_attrs_named_append(a: Seq<XmlAttribute>, b: Seq<XmlAttribute>, name: Seq<char>)
    ensures
        attrs_named(a + b, name) == attrs_named(a, name) + attrs_named(b, name),
    decreases b.len(),
{
    if b.len() == 0 {
        assert(a + b =~= a);
        assert(attrs_named(a, name) + attrs_named(b, name) =~= attrs_named(a, name));
    } else {
        lemma_attrs_named_append(a, b.drop_last(), name);
        assert((a + b).drop_last() =~= a + b.drop_last());
        if b.last().name@ == name {
            assert(attrs_named(a, name) + attrs_named(b, name) =~= (attrs_named(a, name)
                + attrs_named(b.drop_last(), name)).push(b.last().value@));
        }
    }
}

impl XmlNode {
    /// Whether this node is a non-text node carrying the given tag name.
    pub open spec fn is_tagged(self, tag: Seq<char>) -> bool {
        &&& !self.is_text
        &&& self.tag@ == tag
    }

    /// The value of the first attribute named `name`, if any.
    pub open spec fn spec_attr(self, name: Seq<char>) -> Option<Seq<char>> {
        let vs = attrs_named(self.attributes@, name);
        if vs.len() == 0 {
            None
        } else {
            Some(vs[0])
        }
    }

    /// Whether this node is a non-text node carrying the given tag name.
    pub fn has_tag_name(&self, tag: &str) -> (r: bool)
        ensures
            r == self.is_tagged(tag@),
    {
        !self.is_text && str_eq(self.tag.as_str(), tag)
    }

    /// The value of the first attribute named `name`, if any.
    pub fn attr<'a>(&'a self, name: &str) -> (r: Option<&'a String>)
        ensures
            match r {
                Some(v) => self.spec_attr(name@) == Some(v@),
                None => self.spec_attr(name@) is None,
            },
    {
        let mut i: usize = 0;
        while i < self.attributes.len()
            invariant
                i <= self.attributes@.len(),
                attrs_named(self.attributes@.subrange(0, i as int), name@) =~= Seq::<
                    Seq<char>,
                >::empty(),
            decreases self.attributes@.len() - i,
        {
            let a = &self.attributes[i];
            proof {
                assert(self.attributes@.subrange(0, i + 1).drop_last() =~= self.attributes@
                    .subrange(0, i as int));
                assert(self.attributes@.subrange(0, i + 1).last() == self.attributes@[i as int]);
            }
            if str_eq(a.name.as_str(), name) {
                proof {
                    let head = self.attributes@.subrange(0, i + 1);
                    let tail = self.attributes@.subrange(i + 1, self.attributes@.len() as int);
                    assert(self.attributes@ =~= head + tail);
                    lemma_attrs_named_append(head, tail, name@);
                    assert(attrs_named(head, name@) =~= seq![a.value@]);
                }
                return Some(&a.value);
            }
            i = i + 1;
        }
        proof {
            assert(self.attributes@.subrange(0, self.attributes@.len() as int)
                =~= self.attributes@);
        }
        None
    }
}

/// The non-text nodes of `ns`, in order.
pub open spec fn non_text(ns: Seq<XmlNode>) -> Seq<XmlNode>
    decreases ns.len(),
{
    if ns.len() == 0 {
        Seq::empty()
    } else if ns.last().is_text {
        non_text(ns.drop_last())
    } else {
        non_text(ns.drop_last()).push(ns.last())
    }
}

/// The nodes of `ns` tagged `tag`, in order.
pub open spec fn children_tagged(ns: Seq<XmlNode>, tag: Seq<char>) -> Seq<XmlNode>
    decreases ns.len(),
{
    if ns.len() == 0 {
        Seq::empty()
    } else if ns.last().is_tagged(tag) {
        children_tagged(ns.drop_last(), tag).push(ns.last())
    } else {
        children_tagged(ns.drop_last(), tag)
    }
}

proof fn lemma_children_tagged_append(a: Seq<XmlNode>, b: Seq<XmlNode>, tag: Seq<char>)
    ensures
        children_tagged(a + b, tag) == children_tagged(a, tag) + children_tagged(b, tag),
    decreases b.len(),
{
    if b.len() == 0 {
        assert(a + b =~= a);
        assert(children_tagged(a, tag) + children_tagged(b, tag) =~= children_tagged(a, tag));
    } else {
        lemma_children_tagged_append(a, b.drop_last(), tag);
        assert((a + b).drop_last() =~= a + b.drop_last());
        if b.last().is_tagged(tag) {
            assert(children_tagged(a, tag) + children_tagged(b, tag) =~= (children_tagged(a, tag)
                + children_tagged(b.drop_last(), tag)).push(b.last()));
        }
    }
}

impl XmlNode {
    /// The first direct child of `self` tagged `tag`, if any.
    pub open spec fn spec_find_child(self, tag: Seq<char>) -> Option<XmlNode> {
        let s = children_tagged(self.children@, tag);
        if s.len() == 0 {
            None
        } else {
            Some(s[0])
        }
    }

    /// Finds the first direct child of `self` tagged `tag`.
    pub fn find_child<'a>(&'a self, tag: &str) -> (r: Option<&'a XmlNode>)
        ensures
            match r {
                Some(m) => self.spec_find_child(tag@) == Some(*m),
                None => self.spec_find_child(tag@) is None,
            },
    {
        let mut i: usize = 0;
        while i < self.children.len()
            invariant
                i <= self.children@.len(),
                children_tagged(self.children@.subrange(0, i as int), tag@) =~= Seq::<
                    XmlNode,
                >::empty(),
            decreases self.children@.len() - i,
        {
            let c = &self.children[i];
            proof {
                assert(self.children@.subrange(0, i + 1).drop_last() =~= self.children@.subrange(
                    0,
                    i as int,
                ));
                assert(self.children@.subrange(0, i + 1).last() == self.children@[i as int]);
            }
            if c.has_tag_name(tag) {
                proof {
                    let head = self.children@.subrange(0, i + 1);
                    let tail = self.children@.subrange(i + 1, self.children@.len() as int);
                    assert(self.children@ =~= head + tail);
                    lemma_children_tagged_append(head, tail, tag@);
                    assert(children_tagged(head, tag@) =~= seq![*c]);
                }
                return Some(c);
            }
            i = i + 1;
        }
        proof {
            assert(self.children@.subrange(0, self.children@.len() as int) =~= self.children@);
        }
        None
    }
}

/// All descendants of `n` (the node itself included) tagged `tag`, in
/// document pre-order.
pub open spec fn spec_tagged(n: XmlNode, tag: Seq<char>) -> Seq<XmlNode>
    decreases n,
{
    let rest = spec_tagged_in(n.children@, tag);
    if n.is_tagged(tag) {
        seq![n] + rest
    } else {
        rest
    }
}

/// All descendants of the nodes of `ns` tagged `tag`, in document pre-order.
pub open spec fn spec_tagged_in(ns: Seq<XmlNode>, tag: Seq<char>) -> Seq<XmlNode>
    decreases ns,
{
    if ns.len() == 0 {
        Seq::empty()
    } else {
        spec_tagged_in(ns.drop_last(), tag) + spec_tagged(ns.last(), tag)
    }
}

/// The first descendant of `n` (the node itself included) tagged `tag`, in
/// document pre-order, if any.
pub open spec fn spec_find_tagged(n: XmlNode, tag: Seq<char>) -> Option<XmlNode> {
    let s = spec_tagged(n, tag);
    if s.len() == 0 {
        None
    } else {
        Some(s[0])
    }
}

/// The borrowed nodes of `s`, by value.
pub open spec fn derefs(s: Seq<&XmlNode>) -> Seq<XmlNode> {
    s.map_values(|p: &XmlNode| *p)
}

/// Collects all descendants of `n` (the node itself included) tagged `tag`,
/// in document pre-order.
pub fn collect_tagged<'a>(n: &'a XmlNode, tag: &str) -> (out: Vec<&'a XmlNode>)
    ensures
        derefs(out@) == spec_tagged(*n, tag@),
    decreases *n,
{
    let mut out: Vec<&'a XmlNode> = Vec::new();
    if n.has_tag_name(tag) {
        out.push(n);
        proof {
            assert(derefs(out@) =~= seq![*n]);
        }
    } else {
        proof {
            assert(derefs(out@) =~= Seq::<XmlNode>::empty());
        }
    }
    let ghost head = derefs(out@);
    let mut i: usize = 0;
    while i < n.children.len()
        invariant
            i <= n.children@.len(),
            derefs(out@) == head + spec_tagged_in(n.children@.subrange(0, i as int), tag@),
        decreases n.children@.len() - i,
    {
        proof {
            assert(decreases_to!(*n => n.children));
            assert(decreases_to!(n.children => n.children@));
            assert(decreases_to!(n.children@ => n.children@[i as int]));
        }
        let mut sub = collect_tagged(&n.children[i], tag);
        let ghost sub_snap = derefs(sub@);
        out.append(&mut sub);
        proof {
            assert(derefs(out@) =~= head + spec_tagged_in(n.children@.subrange(0, i as int), tag@)
                + sub_snap);
            assert(n.children@.subrange(0, i + 1).drop_last() =~= n.children@.subrange(
                0,
                i as int,
            ));
            assert(n.children@.subrange(0, i + 1).last() == n.children@[i as int]);
            assert(derefs(out@) =~= head + spec_tagged_in(n.children@.subrange(0, i + 1), tag@));
        }
        i = i + 1;
    }
    proof {
        assert(n.children@.subrange(0, n.children@.len() as int) =~= n.children@);
        if n.is_tagged(tag@) {
            assert(derefs(out@) =~= spec_tagged(*n, tag@));
        } else {
            assert(head + spec_tagged_in(n.children@, tag@) =~= spec_tagged_in(
                n.children@,
                tag@,
            ));
        }
    }
    out
}

/// Finds the first descendant of `n` (the node itself included) tagged
/// `tag`, in document pre-order.
pub fn find_tagged<'a>(n: &'a XmlNode, tag: &str) -> (r: Option<&'a XmlNode>)
    ensures
        match r {
            Some(m) => spec_find_tagged(*n, tag@) == Some(*m),
            None => spec_find_tagged(*n, tag@) is None,
        },
{
    let found = collect_tagged(n, tag);
    if found.len() == 0 {
        None
    } else {
        let r = found[0];
        proof {
            assert(derefs(found@)[0] == *r);
        }
        Some(r)
    }
}

/// Whether two string slices hold the same characters.
pub fn str_eq(a: &str, b: &str) -> (r: bool)
    ensures
        r == (a@ == b@),
{
    let x = a.to_owned();
    let y = b.to_owned();
    x == y
}

} // verus!
