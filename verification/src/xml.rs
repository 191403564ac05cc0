//! A plain model of an XML element tree, the trusted reading of XML text into
//! it, and verified lookups over it.

use vstd::prelude::*;
use vstd::pervasive::arbitrary;
use crate::text::str_eq;

verus! {

/// One attribute of an element: its local name and its value.
pub struct XmlAttr {
    pub name: String,
    pub value: String,
}

/// One child node of an element. Element and text children carry everything
/// the feed logic reads; comments and processing instructions are kept as
/// `Other` so that positions (whether a text child comes first) survive.
pub enum XmlChild {
    Elem(XmlElem),
    Text(String),
    Other,
}

/// An XML element: its namespace (empty when it has none), its local tag
/// name, its attributes, and its child nodes in document order.
pub struct XmlElem {
    pub ns: String,
    pub tag: String,
    pub attrs: Vec<XmlAttr>,
    pub children: Vec<XmlChild>,
}

/// The index of the first attribute named `name`, if any.
pub open spec fn find_attr(attrs: Seq<XmlAttr>, name: Seq<char>) -> Option<int>
    decreases attrs.len(),
{
    if attrs.len() == 0 {
        None
    } else if attrs[0].name@ == name {
        Some(0)
    } else {
        match find_attr(attrs.drop_first(), name) {
            Some(i) => Some(i + 1),
            None => None,
        }
    }
}

/// `find_attr` returns the least index of an attribute named `name`, or
/// `None` when no attribute has that name.
pub proof fn lemma_find_attr(attrs: Seq<XmlAttr>, name: Seq<char>)
    ensures
        match find_attr(attrs, name) {
            Some(i) => 0 <= i < attrs.len() && attrs[i].name@ == name && (forall|j: int|
                0 <= j < i ==> attrs[j].name@ != name),
            None => forall|j: int| 0 <= j < attrs.len() ==> attrs[j].name@ != name,
        },
    decreases attrs.len(),
{
    if attrs.len() == 0 {
    } else if attrs[0].name@ == name {
    } else {
        let d = attrs.drop_first();
        lemma_find_attr(d, name);
        assert(forall|j: int| 0 <= j < d.len() ==> d[j] == attrs[j + 1]);
        match find_attr(d, name) {
            Some(i) => {
                assert(attrs[i + 1] == d[i]);
                assert forall|j: int| 0 <= j < i + 1 implies attrs[j].name@ != name by {
                    if j > 0 {
                        assert(attrs[j] == d[j - 1]);
                    }
                }
            },
            None => {
                assert forall|j: int| 0 <= j < attrs.len() implies attrs[j].name@ != name by {
                    if j > 0 {
                        assert(attrs[j] == d[j - 1]);
                    }
                }
            },
        }
    }
}

/// The value of the first attribute named `name`, if any: how roxmltree
/// resolves an attribute lookup by local name.
pub open spec fn spec_attr(attrs: Seq<XmlAttr>, name: Seq<char>) -> Option<Seq<char>> {
    match find_attr(attrs, name) {
        Some(i) => Some(attrs[i].value@),
        None => None,
    }
}

impl XmlElem {
    /// The element's text: the content of its first child when that child is
    /// a text node, the way roxmltree reports an element's text.
    pub open spec fn spec_text(self) -> Option<Seq<char>> {
        if self.children@.len() > 0 {
            match self.children@[0] {
                XmlChild::Text(t) => Some(t@),
                _ => None,
            }
        } else {
            None
        }
    }

    /// True when the element has namespace `ns` and tag `tag`.
    pub open spec fn spec_is_named(self, ns: Seq<char>, tag: Seq<char>) -> bool {
        self.ns@ == ns && self.tag@ == tag
    }

    /// Tests the element's expanded name.
    pub fn is_named(&self, ns: &str, tag: &str) -> (r: bool)
        ensures
            r == self.spec_is_named(ns@, tag@),
    {
        str_eq(self.ns.as_str(), ns) && str_eq(self.tag.as_str(), tag)
    }

    /// Looks up the value of the first attribute named `name`.
    #[verifier::loop_isolation(false)]
    pub fn attr<'a>(&'a self, name: &str) -> (r: Option<&'a String>)
        ensures
            match spec_attr(self.attrs@, name@) {
                Some(v) => r matches Some(s) && s@ == v,
                None => r is None,
            },
    {
        proof {
            lemma_find_attr(self.attrs@, name@);
        }
        let n = self.attrs.len();
        let mut i: usize = 0;
        while i < n
            invariant
                0 <= i <= n,
                forall|j: int| 0 <= j < i ==> self.attrs@[j].name@ != name@,
            decreases n - i,
        {
            if str_eq(self.attrs[i].name.as_str(), name) {
                proof {
                    assert(find_attr(self.attrs@, name@) == Some(i as int));
                }
                return Some(&self.attrs[i].value);
            }
            i += 1;
        }
        None
    }

    /// The element's text, when its first child is a text node.
    pub fn text<'a>(&'a self) -> (r: Option<&'a String>)
        ensures
            match self.spec_text() {
                Some(t) => r matches Some(s) && s@ == t,
                None => r is None,
            },
    {
        if self.children.len() > 0 {
            match &self.children[0] {
                XmlChild::Text(t) => Some(t),
                _ => None,
            }
        } else {
            None
        }
    }
}

/// The element payload of a child node.
pub open spec fn child_elem(c: XmlChild) -> XmlElem {
    match c {
        XmlChild::Elem(e) => e,
        _ => arbitrary(),
    }
}

/// True when `c` is an element child with namespace `ns` and tag `tag`.
pub open spec fn is_named_child(c: XmlChild, ns: Seq<char>, tag: Seq<char>) -> bool {
    c matches XmlChild::Elem(e) && e.spec_is_named(ns, tag)
}

/// The index of the first direct child of `cs` that is an element named
/// `(ns, tag)`, if any.
pub open spec fn find_named_child(cs: Seq<XmlChild>, ns: Seq<char>, tag: Seq<char>) -> Option<int>
    decreases cs.len(),
{
    if cs.len() == 0 {
        None
    } else if is_named_child(cs[0], ns, tag) {
        Some(0)
    } else {
        match find_named_child(cs.drop_first(), ns, tag) {
            Some(i) => Some(i + 1),
            None => None,
        }
    }
}

/// `find_named_child` returns the least index of an element child named
/// `(ns, tag)`, or `None` when there is no such child.
pub proof fn lemma_find_named_child(cs: Seq<XmlChild>, ns: Seq<char>, tag: Seq<char>)
    ensures
        match find_named_child(cs, ns, tag) {
            Some(i) => 0 <= i < cs.len() && is_named_child(cs[i], ns, tag) && (forall|j: int|
                0 <= j < i ==> !is_named_child(cs[j], ns, tag)),
            None => forall|j: int| 0 <= j < cs.len() ==> !is_named_child(cs[j], ns, tag),
        },
    decreases cs.len(),
{
    if cs.len() == 0 {
    } else if is_named_child(cs[0], ns, tag) {
    } else {
        let d = cs.drop_first();
        lemma_find_named_child(d, ns, tag);
        assert(forall|j: int| 0 <= j < d.len() ==> d[j] == cs[j + 1]);
        match find_named_child(d, ns, tag) {
            Some(i) => {
                assert(cs[i + 1] == d[i]);
                assert forall|j: int| 0 <= j < i + 1 implies !is_named_child(cs[j], ns, tag) by {
                    if j > 0 {
                        assert(cs[j] == d[j - 1]);
                    }
                }
            },
            None => {
                assert forall|j: int| 0 <= j < cs.len() implies !is_named_child(
                    cs[j],
                    ns,
                    tag,
                ) by {
                    if j > 0 {
                        assert(cs[j] == d[j - 1]);
                    }
                }
            },
        }
    }
}

impl XmlElem {
    /// Finds the first direct child element named `(ns, tag)`.
    #[verifier::loop_isolation(false)]
    pub fn find_child<'a>(&'a self, ns: &str, tag: &str) -> (r: Option<&'a XmlElem>)
        ensures
            match find_named_child(self.children@, ns@, tag@) {
                Some(i) => r matches Some(x) && *x == child_elem(self.children@[i]),
                None => r is None,
            },
    {
        proof {
            lemma_find_named_child(self.children@, ns@, tag@);
        }
        let n = self.children.len();
        let mut i: usize = 0;
        while i < n
            invariant
                0 <= i <= n,
                forall|j: int| 0 <= j < i ==> !is_named_child(self.children@[j], ns@, tag@),
            decreases n - i,
        {
            match &self.children[i] {
                XmlChild::Elem(sub) => {
                    if sub.is_named(ns, tag) {
                        proof {
                            assert(is_named_child(self.children@[i as int], ns@, tag@));
                            assert(find_named_child(self.children@, ns@, tag@) == Some(i as int));
                        }
                        return Some(sub);
                    }
                },
                _ => {},
            }
            i += 1;
        }
        None
    }
}

/// The first element named `(ns, tag)` in the tree rooted at `e`, in
/// document (preorder) order, `e` itself included.
pub open spec fn spec_find_elem(e: XmlElem, ns: Seq<char>, tag: Seq<char>) -> Option<XmlElem>
    decreases e,
{
    if e.spec_is_named(ns, tag) {
        Some(e)
    } else {
        spec_find_elem_in_children(e.children@, ns, tag)
    }
}

/// The first element named `(ns, tag)` in the trees rooted at the element
/// nodes of `cs`, in document order.
pub open spec fn spec_find_elem_in_children(cs: Seq<XmlChild>, ns: Seq<char>, tag: Seq<char>) -> Option<
    XmlElem,
>
    decreases cs,
{
    if cs.len() == 0 {
        None
    } else {
        let head = match cs[0] {
            XmlChild::Elem(e) => spec_find_elem(e, ns, tag),
            _ => None,
        };
        if head is Some {
            head
        } else {
            spec_find_elem_in_children(cs.drop_first(), ns, tag)
        }
    }
}

/// Finds the first element named `(ns, tag)` in the tree rooted at `e`, in
/// document order.
#[verifier::loop_isolation(false)]
pub fn find_elem<'a>(e: &'a XmlElem, ns: &str, tag: &str) -> (r: Option<&'a XmlElem>)
    ensures
        match spec_find_elem(*e, ns@, tag@) {
            Some(f) => r matches Some(x) && *x == f,
            None => r is None,
        },
    decreases *e,
{
    if e.is_named(ns, tag) {
        return Some(e);
    }
    let n = e.children.len();
    proof {
        assert(e.children@.subrange(0, n as int) =~= e.children@);
    }
    let mut i: usize = 0;
    while i < n
        invariant
            0 <= i <= n,
            spec_find_elem_in_children(e.children@, ns@, tag@) == spec_find_elem_in_children(
                e.children@.subrange(i as int, n as int),
                ns@,
                tag@,
            ),
        decreases n - i,
    {
        let ghost suffix = e.children@.subrange(i as int, n as int);
        proof {
            assert(suffix.drop_first() =~= e.children@.subrange(i + 1, n as int));
            assert(suffix[0] == e.children@[i as int]);
        }
        match &e.children[i] {
            XmlChild::Elem(sub) => {
                proof {
                    assert(e.children@[i as int] == XmlChild::Elem(*sub));
                    assert(decreases_to!(e.children@ => e.children@[i as int]));
                    assert(decreases_to!(*e => *sub));
                }
                let f = find_elem(sub, ns, tag);
                if let Some(x) = f {
                    return Some(x);
                }
            },
            _ => {},
        }
        i += 1;
    }
    proof {
        assert(e.children@.subrange(n as int, n as int) =~= Seq::<XmlChild>::empty());
    }
    None
}

/// roxmltree's parsed-tree node type, declared so that the conversion below
/// can take it; its values stay opaque here.
#[verifier::external_type_specification]
#[verifier::external_body]
pub struct ExNode<'a, 'input: 'a>(roxmltree::Node<'a, 'input>);

/// The deepest element nesting a document may have before it is rejected.
/// The bound keeps every walk over the model tree — building it, searching
/// it, and freeing it — within a small, fixed amount of call stack, whatever
/// text the remote feed serves; Atom feeds nest only a handful of levels.
pub const MAX_XML_DEPTH: usize = 64;

/// The element tree that reading `text` as XML yields: a synthetic document
/// element with empty namespace and tag whose children are the document's
/// top-level nodes, or `None` when the text is not well-formed XML or nests
/// elements deeper than `MAX_XML_DEPTH` levels. Reading is a function of the
/// text alone.
pub uninterp spec fn spec_xml_document(text: Seq<char>) -> Option<XmlElem>;

/// Relies on roxmltree::Node::tag_name and Node::attributes: copies one
/// node's name and attributes into the plain model, children left empty.
#[verifier::external_body]
fn xml_shallow_elem(node: roxmltree::Node<'_, '_>) -> XmlElem {
    XmlElem {
        ns: node.tag_name().namespace().unwrap_or("").to_string(),
        tag: node.tag_name().name().to_string(),
        attrs: node.attributes().map(
            |a| XmlAttr { name: a.name().to_string(), value: a.value().to_string() },
        ).collect(),
        children: Vec::new(),
    }
}

/// Relies on roxmltree::Node::is_text and Node::text: appends one
/// non-element child node (text, comment or processing instruction) to the
/// model element.
#[verifier::external_body]
fn xml_push_leaf(parent: &mut XmlElem, node: roxmltree::Node<'_, '_>) {
    if node.is_text() {
        parent.children.push(XmlChild::Text(node.text().unwrap_or("").to_string()));
    } else {
        parent.children.push(XmlChild::Other);
    }
}

/// Relies on roxmltree::Node::children and Node::is_element: copies the tree
/// below `root` into the plain model, or yields `None` for a tree whose
/// elements nest deeper than `MAX_XML_DEPTH`. The traversal keeps its own
/// worklist on the heap, so the document's nesting depth never deepens the
/// call stack.
#[verifier::external_body]
fn xml_tree_children(root: roxmltree::Node<'_, '_>) -> Option<Vec<XmlChild>> {
    let mut stack = vec![(root.children(), xml_shallow_elem(root))];
    loop {
        let depth = stack.len();
        let top = stack.last_mut().unwrap();
        match top.0.next() {
            Some(n) if n.is_element() && depth > MAX_XML_DEPTH => return None,
            Some(n) if n.is_element() => stack.push((n.children(), xml_shallow_elem(n))),
            Some(n) => xml_push_leaf(&mut top.1, n),
            None => match (stack.pop().unwrap().1, stack.last_mut()) {
                (done, Some(parent)) => parent.1.children.push(XmlChild::Elem(done)),
                (done, None) => return Some(done.children),
            },
        }
    }
}

/// Relies on roxmltree::Document::parse: turns XML text into its element
/// tree, deterministically. Text that is not well-formed XML is rejected, as
/// is a document nesting elements deeper than `MAX_XML_DEPTH`: the model
/// tree it would need could not be walked or freed in bounded stack space.
///
/// roxmltree's own tokenizer descends once per nesting level (tokenizer.rs,
/// `parse_element`/`parse_content`), so text nested thousands of levels deep
/// exhausts the call stack inside roxmltree before this function can judge
/// it — the cost every caller of roxmltree pays. The depth bound here is
/// deliberately far below that, so that every document this library accepts
/// is also one the parser handles with room to spare.
#[verifier::external_body]
pub(crate) fn parse_xml_document(xml: &str) -> (r: Option<XmlElem>)
    ensures
        r == spec_xml_document(xml@),
{
    match roxmltree::Document::parse(xml) {
        Ok(doc) => match xml_tree_children(doc.root()) {
            Some(children) => Some(XmlElem {
                ns: String::new(),
                tag: String::new(),
                attrs: Vec::new(),
                children,
            }),
            None => None,
        },
        Err(_) => None,
    }
}

} // verus!
