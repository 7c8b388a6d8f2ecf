//! A read-only model of a parsed XML document and the lookups the
//! signature logic makes in it.
//!
//! Nodes are kept in document order, as the parser allocates them: node 0 is
//! the document node, and the descendants of node `i` are exactly the nodes
//! `i + 1 .. end` where `end` is stored with the node.
use vstd::prelude::*;

use crate::backend::{
    self, children_in, deep_text_in, descendants_in, is_white_space, node_in, trim_end, trim_start, trimmed, xml_parse_error, XmlAttr,
    XmlNodeKind,
};
use crate::error::LibError;

verus! {

/// One node of the model.
#[derive(Debug, Clone)]
pub struct XmlNode {
    pub kind: XmlNodeKind,
    /// Direct children, in document order.
    pub children: Vec<usize>,
    /// One past the last descendant.
    pub end: usize,
}

/// A parsed document: its source text and its nodes in document order.
#[derive(Debug, Clone)]
pub struct XmlTree {
    pub source: String,
    pub nodes: Vec<XmlNode>,
}

/// The namespace URI of an element, the empty string when it has none.
pub open spec fn ns_text(o: Option<String>) -> Seq<char> {
    match o {
        Some(s) => s@,
        None => Seq::empty(),
    }
}

/// The value of the first attribute called `name`.
pub open spec fn first_attr(attrs: Seq<XmlAttr>, name: Seq<char>) -> Option<Seq<char>>
    decreases attrs.len(),
{
    if attrs.len() == 0 {
        None
    } else if attrs[0].name@ == name {
        Some(attrs[0].value@)
    } else {
        first_attr(attrs.drop_first(), name)
    }
}

/// The entries of `s` that are elements `{ns}local` of `t`, in order.
pub open spec fn select_elements(t: XmlTree, s: Seq<usize>, ns: Seq<char>, local: Seq<char>) -> Seq<usize>
    decreases s.len(),
{
    if s.len() == 0 {
        Seq::empty()
    } else {
        let rest = select_elements(t, s.drop_last(), ns, local);
        if t.element_name_is(s.last() as int, ns, local) {
            rest.push(s.last())
        } else {
            rest
        }
    }
}

pub open spec fn opt_str_view(o: Option<&str>) -> Option<Seq<char>> {
    match o {
        Some(s) => Some(s@),
        None => None,
    }
}

impl XmlTree {
    pub open spec fn node_ok(self, i: int) -> bool {
        let nd = self.nodes@[i];
        &&& i < nd.end <= self.nodes@.len()
        &&& forall|k: int| 0 <= k < nd.children@.len() ==> i < #[trigger] nd.children@[k] < nd.end
    }

    /// Every node's subtree and children lie after it and inside the document.
    pub open spec fn wf(self) -> bool {
        &&& xml_parse_error(self.source@) is None
        &&& forall|i: int| 0 <= i < self.nodes@.len() ==> #[trigger] self.node_ok(i)
    }

    pub open spec fn element_name_is(self, id: int, ns: Seq<char>, local: Seq<char>) -> bool {
        &&& 0 <= id < self.nodes@.len()
        &&& match self.nodes@[id].kind {
            XmlNodeKind::Element { ns_uri, local: l, .. } => l@ == local && ns_text(ns_uri) == ns,
            _ => false,
        }
    }

    pub open spec fn children_of(self, id: int) -> Seq<usize> {
        if 0 <= id < self.nodes@.len() {
            self.nodes@[id].children@
        } else {
            Seq::empty()
        }
    }

    pub open spec fn named_children(self, id: int, ns: Seq<char>, local: Seq<char>) -> Seq<usize> {
        select_elements(self, self.children_of(id), ns, local)
    }

    pub open spec fn first_named_child(self, id: int, ns: Seq<char>, local: Seq<char>) -> Option<usize> {
        let s = self.named_children(id, ns, local);
        if s.len() > 0 {
            Some(s[0])
        } else {
            None
        }
    }

    /// The descendants of `id` in document order, `id` itself excluded.
    pub open spec fn descendants_of(self, id: int) -> Seq<usize> {
        if 0 <= id < self.nodes@.len() && id < self.nodes@[id].end {
            Seq::new((self.nodes@[id].end - id - 1) as nat, |k: int| (id + 1 + k) as usize)
        } else {
            Seq::empty()
        }
    }

    pub open spec fn named_descendants(self, id: int, ns: Seq<char>, local: Seq<char>) -> Seq<usize> {
        select_elements(self, self.descendants_of(id), ns, local)
    }

    /// `node` is a proper descendant of `root`.
    pub open spec fn within(self, root: int, node: int) -> bool {
        0 <= root < self.nodes@.len() && root < node < self.nodes@[root].end
    }

    pub open spec fn attribute(self, id: int, name: Seq<char>) -> Option<Seq<char>> {
        if 0 <= id < self.nodes@.len() {
            match self.nodes@[id].kind {
                XmlNodeKind::Element { attrs, .. } => first_attr(attrs@, name),
                _ => None,
            }
        } else {
            None
        }
    }

    /// All text of the subtree rooted at `id`, depth first, as the parser's
    /// document collects it.
    pub open spec fn deep_text(self, id: int) -> Seq<char> {
        deep_text_in(self.source@, id as usize)
    }

    /// The text of the subtree rooted at `id`, trimmed.
    pub open spec fn trimmed_text(self, id: int) -> Seq<char> {
        trimmed(self.deep_text(id))
    }
}

/// Whether two strings are equal.
pub fn str_equal(a: &str, b: &str) -> (r: bool)
    ensures
        r <==> a@ =~= b@,
{
    let x = a.to_owned();
    let y = b.to_owned();
    x == y
}

/// Whether an optional namespace URI, read as the empty string when absent, equals `ns`.
fn ns_equal(o: &Option<String>, ns: &str) -> (r: bool)
    ensures
        r <==> ns_text(*o) =~= ns@,
{
    match o {
        Some(s) => str_equal(s.as_str(), ns),
        None => ns.is_empty(),
    }
}

/// What the parser reports of node `i` of `text`, in a document of `n`
/// nodes, fits a tree in document order: the node's descendants are the
/// nodes right after it, in order, and its children are among them.
pub open spec fn node_shaped(text: Seq<char>, n: int, i: int) -> bool {
    let desc = descendants_in(text, i as usize);
    let kids = children_in(text, i as usize);
    &&& desc.len() < n - i
    &&& forall|k: int| 0 <= k < desc.len() ==> #[trigger] desc[k] == i + 1 + k
    &&& forall|m: int| 0 <= m < kids.len() ==> i < #[trigger] kids[m] < i + 1 + desc.len()
}

/// The parser's report on `text` describes a tree in document order, with
/// fewer nodes than the largest `usize` less one.
pub open spec fn well_shaped(text: Seq<char>) -> bool {
    let n = descendants_in(text, 0).len() + 1int;
    &&& descendants_in(text, 0).len() < usize::MAX - 1
    &&& forall|i: int| 0 <= i < n ==> #[trigger] node_shaped(text, n, i)
}

proof fn lemma_trim_start_first(s: Seq<char>)
    ensures
        trim_start(s).len() > 0 ==> !is_white_space(trim_start(s)[0]),
    decreases s.len(),
{
    if s.len() > 0 && is_white_space(s[0]) {
        lemma_trim_start_first(s.drop_first());
    }
}

proof fn lemma_trim_end_shape(s: Seq<char>)
    ensures
        trim_end(s).len() <= s.len(),
        trim_end(s) == s.subrange(0, trim_end(s).len() as int),
        trim_end(s).len() > 0 ==> !is_white_space(trim_end(s).last()),
    decreases s.len(),
{
    if s.len() > 0 && is_white_space(s.last()) {
        lemma_trim_end_shape(s.drop_last());
        assert(s.drop_last().subrange(0, trim_end(s).len() as int) =~= s.subrange(0, trim_end(s).len() as int));
    } else {
        assert(s.subrange(0, s.len() as int) =~= s);
    }
}

/// Trimming a trimmed text changes nothing: it neither starts nor ends with
/// white space.
pub proof fn lemma_trimmed_idempotent(s: Seq<char>)
    ensures
        trimmed(trimmed(s)) == trimmed(s),
        trimmed(s).len() > 0 ==> !is_white_space(trimmed(s)[0]) && !is_white_space(trimmed(s).last()),
{
    let a = trim_start(s);
    let e = trim_end(a);
    lemma_trim_start_first(s);
    lemma_trim_end_shape(a);
    if e.len() > 0 {
        assert(e[0] == a[0]);
    }
    assert(trim_start(e) == e);
    assert(trim_end(e) == e);
}

fn structure_error() -> (e: LibError)
    ensures
        e matches LibError::Xml(m) && m@ == "unexpected document structure"@,
{
    LibError::Xml("unexpected document structure".to_owned())
}

impl XmlTree {
    /// Node `i` is what the parser reports of node `i` of `text`.
    pub open spec fn node_models(self, text: Seq<char>, i: int) -> bool {
        &&& self.nodes@[i].kind.view() == node_in(text, i as usize)
        &&& self.nodes@[i].children@ == children_in(text, i as usize)
        &&& self.nodes@[i].end == i + 1 + descendants_in(text, i as usize).len()
    }

    /// The model holds what the parser reports of the document `text`:
    /// as many nodes as the document node has descendants, plus one, and
    /// for each its kind, children and extent.
    pub open spec fn models(self, text: Seq<char>) -> bool {
        &&& xml_parse_error(text) is None
        &&& self.nodes@.len() == descendants_in(text, 0).len() + 1
        &&& forall|i: int| 0 <= i < self.nodes@.len() ==> #[trigger] self.node_models(text, i)
    }

    /// Parse `text` and build the model.
    ///
    /// Fails with `LibError::Xml` when the parser rejects the text (with the
    /// parser's message), or when the parser's answers do not describe a
    /// tree in document order.
    pub fn parse(text: &str) -> (r: Result<XmlTree, LibError>)
        ensures
            r matches Ok(t) ==> t.wf() && t.source@ == text@ && t.nodes@.len() > 0 && t.models(text@),
            r matches Err(e) ==> e is Xml,
            xml_parse_error(text@) matches Some(m) ==> (r matches Err(LibError::Xml(e)) && e@ == m),
            r is Ok <==> xml_parse_error(text@) is None && well_shaped(text@),
            xml_parse_error(text@) is None && !well_shaped(text@)
                ==> (r matches Err(LibError::Xml(m)) && m@ == "unexpected document structure"@),
    {
        match backend::xml_check(text) {
            Some(msg) => return Err(LibError::Xml(msg)),
            None => {},
        }
        let top = backend::document_descendants(text, 0);
        if top.len() >= usize::MAX - 1 {
            return Err(structure_error());
        }
        let n = top.len() + 1;
        let mut nodes: Vec<XmlNode> = Vec::new();
        let mut i: usize = 0;
        while i < n
            invariant
                i <= n,
                n == descendants_in(text@, 0).len() + 1,
                n < usize::MAX,
                xml_parse_error(text@) is None,
                nodes@.len() == i,
                forall|j: int| 0 <= j < i ==> #[trigger] node_shaped(text@, n as int, j),
                forall|j: int| 0 <= j < i ==> #[trigger] nodes@[j].end <= n && j < nodes@[j].end
                    && forall|k: int| 0 <= k < nodes@[j].children@.len() ==> j < #[trigger] nodes@[j].children@[k] < nodes@[j].end,
                forall|j: int| 0 <= j < i ==> #[trigger] nodes@[j].kind.view() == node_in(text@, j as usize)
                    && nodes@[j].children@ == children_in(text@, j as usize)
                    && nodes@[j].end == j + 1 + descendants_in(text@, j as usize).len(),
            decreases n - i,
        {
            let desc = backend::document_descendants(text, i);
            if desc.len() >= n - i {
                proof {
                    assert(!node_shaped(text@, n as int, i as int));
                }
                return Err(structure_error());
            }
            let mut k: usize = 0;
            while k < desc.len()
                invariant
                    k <= desc.len(),
                    desc.len() < n - i,
                    i < n,
                    n == descendants_in(text@, 0).len() + 1,
                    desc@ == descendants_in(text@, i as usize),
                    xml_parse_error(text@) is None,
                    forall|k2: int| 0 <= k2 < k ==> #[trigger] desc@[k2] == i + 1 + k2,
                decreases desc.len() - k,
            {
                if desc[k] != i + 1 + k {
                    proof {
                        assert(!node_shaped(text@, n as int, i as int));
                    }
                    return Err(structure_error());
                }
                k += 1;
            }
            let end = i + 1 + desc.len();
            let children = backend::document_children(text, i);
            let mut c: usize = 0;
            while c < children.len()
                invariant
                    c <= children.len(),
                    i < n,
                    n == descendants_in(text@, 0).len() + 1,
                    end == i + 1 + descendants_in(text@, i as usize).len(),
                    children@ == children_in(text@, i as usize),
                    xml_parse_error(text@) is None,
                    forall|m: int| 0 <= m < c ==> i < #[trigger] children@[m] < end,
                decreases children.len() - c,
            {
                if children[c] <= i || children[c] >= end {
                    proof {
                        assert(!node_shaped(text@, n as int, i as int));
                    }
                    return Err(structure_error());
                }
                c += 1;
            }
            assert(node_shaped(text@, n as int, i as int));
            let kind = backend::document_node(text, i);
            let ghost cs = children@;
            let ghost kv = kind.view();
            nodes.push(XmlNode { kind, children, end });
            assert(nodes@[i as int].children@ == cs);
            assert(nodes@[i as int].kind.view() == kv);
            assert(nodes@[i as int].end == end);
            assert(end <= n);
            i += 1;
        }
        let tree = XmlTree { source: text.to_owned(), nodes };
        assert forall|j: int| 0 <= j < tree.nodes@.len() implies #[trigger] tree.node_ok(j) by {
            assert(tree.nodes@[j].end <= n);
        }
        assert forall|j: int| 0 <= j < tree.nodes@.len() implies #[trigger] tree.node_models(text@, j) by {
            assert(tree.nodes@[j].kind.view() == node_in(text@, j as usize));
        }
        Ok(tree)
    }

    /// Whether node `id` is the element `{ns_uri}local`.
    pub fn is_element(&self, id: usize, ns_uri: &str, local: &str) -> (r: bool)
        ensures
            r == self.element_name_is(id as int, ns_uri@, local@),
    {
        if id >= self.nodes.len() {
            return false;
        }
        match &self.nodes[id].kind {
            XmlNodeKind::Element { ns_uri: n, local: l, .. } => str_equal(l.as_str(), local) && ns_equal(n, ns_uri),
            _ => false,
        }
    }

    fn select_from(&self, s: &Vec<usize>, ns_uri: &str, local: &str) -> (r: Vec<usize>)
        ensures
            r@ == select_elements(*self, s@, ns_uri@, local@),
    {
        let mut out: Vec<usize> = Vec::new();
        let mut k: usize = 0;
        while k < s.len()
            invariant
                k <= s.len(),
                out@ == select_elements(*self, s@.take(k as int), ns_uri@, local@),
            decreases s.len() - k,
        {
            proof {
                assert(s@.take(k + 1).drop_last() =~= s@.take(k as int));
            }
            if self.is_element(s[k], ns_uri, local) {
                out.push(s[k]);
            }
            k += 1;
        }
        proof {
            assert(s@.take(s@.len() as int) =~= s@);
        }
        out
    }

    /// All direct child elements `{ns_uri}local` of `parent`.
    pub fn children(&self, parent: usize, ns_uri: &str, local: &str) -> (r: Vec<usize>)
        ensures
            r@ == self.named_children(parent as int, ns_uri@, local@),
    {
        if parent >= self.nodes.len() {
            return Vec::new();
        }
        self.select_from(&self.nodes[parent].children, ns_uri, local)
    }

    /// First direct child element `{ns_uri}local` of `parent`.
    pub fn child(&self, parent: usize, ns_uri: &str, local: &str) -> (r: Option<usize>)
        ensures
            r == self.first_named_child(parent as int, ns_uri@, local@),
    {
        let all = self.children(parent, ns_uri, local);
        if all.len() > 0 {
            Some(all[0])
        } else {
            None
        }
    }

    /// All descendant elements `{ns_uri}local` of `root`, in document order.
    pub fn descendants(&self, root: usize, ns_uri: &str, local: &str) -> (r: Vec<usize>)
        ensures
            r@ == self.named_descendants(root as int, ns_uri@, local@),
    {
        let mut range: Vec<usize> = Vec::new();
        if root < self.nodes.len() && root < self.nodes[root].end {
            let end = self.nodes[root].end;
            let mut j: usize = root + 1;
            while j < end
                invariant
                    root < j <= end,
                    end == self.nodes@[root as int].end,
                    range@ =~= Seq::new((j - root - 1) as nat, |k: int| (root + 1 + k) as usize),
                decreases end - j,
            {
                range.push(j);
                j += 1;
            }
        }
        assert(range@ =~= self.descendants_of(root as int));
        self.select_from(&range, ns_uri, local)
    }

    /// The value of the attribute `name` of element `id`.
    pub fn attr(&self, id: usize, name: &str) -> (r: Option<&str>)
        ensures
            opt_str_view(r) == self.attribute(id as int, name@),
    {
        if id >= self.nodes.len() {
            return None;
        }
        match &self.nodes[id].kind {
            XmlNodeKind::Element { attrs, .. } => {
                let mut k: usize = 0;
                assert(attrs@.skip(0) =~= attrs@);
                while k < attrs.len()
                    invariant
                        k <= attrs.len(),
                        first_attr(attrs@, name@) == first_attr(attrs@.skip(k as int), name@),
                        self.attribute(id as int, name@) == first_attr(attrs@, name@),
                    decreases attrs.len() - k,
                {
                    assert(attrs@.skip(k as int).drop_first() =~= attrs@.skip(k + 1));
                    assert(attrs@.skip(k as int)[0] == attrs@[k as int]);
                    if str_equal(attrs[k].name.as_str(), name) {
                        let v = attrs[k].value.as_str();
                        assert(attrs@.skip(k as int).len() > 0);
                        assert(first_attr(attrs@.skip(k as int), name@) == Some(attrs@[k as int].value@));
                        return Some(v);
                    }
                    k += 1;
                }
                None
            },
            _ => None,
        }
    }

    /// Whether `node` lies inside the subtree rooted at `root`.
    pub fn is_within(&self, root: usize, node: usize) -> (r: bool)
        ensures
            r == self.within(root as int, node as int),
    {
        root < self.nodes.len() && root < node && node < self.nodes[root].end
    }

    /// The text of the subtree rooted at `id`, trimmed.
    pub fn text(&self, id: usize) -> (r: String)
        requires
            self.wf(),
        ensures
            r@ == self.trimmed_text(id as int),
            trimmed(r@) == r@,
    {
        let all = backend::document_text(self.source.as_str(), id);
        let r = backend::trim_whitespace(all.as_str());
        proof {
            lemma_trimmed_idempotent(all@);
        }
        r
    }
}

} // verus!
