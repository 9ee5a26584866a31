//! The lossless concrete syntax tree the engine works on: every token of
//! the source is kept, each element carries a kind tag and the half-open
//! range of source positions it was read from, and rendering a subtree
//! gives back its exact text.

use vstd::prelude::*;
use crate::TextRange;

verus! {

use vstd::string::StrSliceExecFns;
use vstd::string::StringExecFns;

/// The closed enumeration of grammar productions and token classes that
/// the engine distinguishes. Constructs the engine has no interest in are
/// folded into `OtherNode` / `TokOther`; their text and ranges are still
/// kept losslessly.
#[derive(Clone, Copy, PartialEq, Eq, Structural, Debug)]
pub enum SyntaxKind {
    Root,
    AttrSet,
    LetIn,
    AttrpathValue,
    Attrpath,
    Ident,
    Select,
    Inherit,
    Paren,
    OtherNode,
    TokIdent,
    TokEq,
    TokSemi,
    TokDot,
    TokLParen,
    TokRParen,
    TokWhitespace,
    TokInheritKw,
    TokOther,
}

impl SyntaxKind {
    /// Kinds that label leaf tokens rather than interior nodes.
    pub open spec fn is_token_kind(self) -> bool {
        matches!(self,
            SyntaxKind::TokIdent | SyntaxKind::TokEq | SyntaxKind::TokSemi
            | SyntaxKind::TokDot | SyntaxKind::TokLParen | SyntaxKind::TokRParen
            | SyntaxKind::TokWhitespace | SyntaxKind::TokInheritKw | SyntaxKind::TokOther)
    }
}

/// A leaf of the tree: a kind, the exact source text, and the range that
/// text occupies.
pub struct Token {
    pub kind: SyntaxKind,
    pub text: String,
    pub range: TextRange,
}

/// An interior node: a kind, the range covered by all its children, and
/// the ordered children themselves.
pub struct Node {
    pub kind: SyntaxKind,
    pub range: TextRange,
    pub children: Vec<Element>,
}

/// A child slot of a node: either a node or a leaf token.
pub enum Element {
    Node(Node),
    Token(Token),
}

/// The kind tag of an element, node or token alike.
pub open spec fn elem_kind(e: Element) -> SyntaxKind {
    match e {
        Element::Node(n) => n.kind,
        Element::Token(t) => t.kind,
    }
}

/// The source range an element covers.
pub open spec fn elem_range(e: Element) -> TextRange {
    match e {
        Element::Node(n) => n.range,
        Element::Token(t) => t.range,
    }
}

/// The exact source text covered by an element.
pub open spec fn elem_text(e: Element) -> Seq<char>
    decreases e,
{
    match e {
        Element::Token(t) => t.text@,
        Element::Node(n) => elems_text(n.children@),
    }
}

/// The concatenated text of a sequence of sibling elements.
pub open spec fn elems_text(es: Seq<Element>) -> Seq<char>
    decreases es,
{
    if es.len() == 0 {
        Seq::<char>::empty()
    } else {
        elem_text(es[0]) + elems_text(es.drop_first())
    }
}

/// Structural well-formedness of one element: token ranges measure their
/// text, and a node's children tile its range exactly, in order, with no
/// gap and no overlap. A tree from a lossless parser has this shape; a
/// tree that lacks it is corrupt and a pass must not run on it.
pub open spec fn wf_elem(e: Element) -> bool
    decreases e,
{
    match e {
        Element::Token(t) => {
            &&& t.kind.is_token_kind()
            &&& t.range.wf()
            &&& t.range.end - t.range.start == t.text@.len()
        },
        Element::Node(n) => {
            &&& !n.kind.is_token_kind()
            &&& n.range.wf()
            &&& wf_siblings(n.children@, n.range.start as int, n.range.end as int)
        },
    }
}

/// The siblings `es` are each well formed and tile the span from `pos` to
/// `end` contiguously.
pub open spec fn wf_siblings(es: Seq<Element>, pos: int, end: int) -> bool
    decreases es,
{
    if es.len() == 0 {
        pos == end
    } else {
        &&& wf_elem(es[0])
        &&& elem_range(es[0]).start == pos
        &&& wf_siblings(es.drop_first(), elem_range(es[0]).end as int, end)
    }
}

/// In a well-formed tree, an element's text is exactly as long as the
/// range it claims.
pub proof fn lemma_wf_text_len(e: Element)
    requires
        wf_elem(e),
    ensures
        elem_text(e).len() == elem_range(e).end - elem_range(e).start,
    decreases e,
{
    match e {
        Element::Token(_) => {},
        Element::Node(n) => {
            lemma_wf_siblings_text_len(n.children@, n.range.start as int, n.range.end as int);
        },
    }
}

/// Siblings tiling the span from `pos` to `end` carry exactly `end - pos`
/// characters of text.
pub proof fn lemma_wf_siblings_text_len(es: Seq<Element>, pos: int, end: int)
    requires
        wf_siblings(es, pos, end),
    ensures
        elems_text(es).len() == end - pos,
    decreases es,
{
    if es.len() == 0 {
    } else {
        lemma_wf_text_len(es[0]);
        lemma_wf_siblings_text_len(es.drop_first(), elem_range(es[0]).end as int, end);
    }
}

/// What well-formedness says of a token, stated without unfolding at the
/// use site.
pub proof fn lemma_wf_token_iff(t: Token)
    ensures
        wf_elem(Element::Token(t)) <==> {
            &&& t.kind.is_token_kind()
            &&& t.range.wf()
            &&& t.range.end - t.range.start == t.text@.len()
        },
{
}

/// What well-formedness says of a node, stated without unfolding at the
/// use site.
pub proof fn lemma_wf_node_iff(n: Node)
    ensures
        wf_elem(Element::Node(n)) <==> {
            &&& !n.kind.is_token_kind()
            &&& n.range.wf()
            &&& wf_siblings(n.children@, n.range.start as int, n.range.end as int)
        },
{
}

/// Extending a tiled run by one element that starts where the run ended
/// keeps it a tiled run, now ending where the new element ends.
pub proof fn lemma_wf_siblings_push(es: Seq<Element>, pos: int, end: int, x: Element)
    requires
        wf_siblings(es, pos, end),
        wf_elem(x),
        elem_range(x).start == end,
    ensures
        wf_siblings(es.push(x), pos, elem_range(x).end as int),
    decreases es,
{
    if es.len() == 0 {
        assert(es.push(x)[0] == x);
        assert(es.push(x).drop_first() =~= Seq::<Element>::empty());
        assert(wf_siblings(
            Seq::<Element>::empty(),
            elem_range(x).end as int,
            elem_range(x).end as int,
        ));
    } else {
        assert(es.push(x)[0] == es[0]);
        assert(es.push(x).drop_first() =~= es.drop_first().push(x));
        lemma_wf_siblings_push(es.drop_first(), elem_range(es[0]).end as int, end, x);
    }
}

/// A well-formed element claims a well-formed range.
pub proof fn lemma_wf_elem_range(e: Element)
    requires
        wf_elem(e),
    ensures
        elem_range(e).wf(),
{
}

/// Every sibling of a well-formed run lies within the span it tiles and is
/// itself well formed.
pub proof fn lemma_wf_siblings_each(es: Seq<Element>, pos: int, end: int, i: int)
    requires
        wf_siblings(es, pos, end),
        0 <= i < es.len(),
    ensures
        wf_elem(es[i]),
        pos <= elem_range(es[i]).start,
        elem_range(es[i]).end <= end,
        pos <= end,
    decreases es,
{
    let tail_pos = elem_range(es[0]).end as int;
    lemma_wf_elem_range(es[0]);
    if i == 0 {
        lemma_wf_siblings_bounds(es.drop_first(), tail_pos, end);
    } else {
        lemma_wf_siblings_each(es.drop_first(), tail_pos, end, i - 1);
        assert(es.drop_first()[i - 1] == es[i]);
    }
}

/// A well-formed run of siblings never tiles a negative span.
pub proof fn lemma_wf_siblings_bounds(es: Seq<Element>, pos: int, end: int)
    requires
        wf_siblings(es, pos, end),
    ensures
        pos <= end,
    decreases es,
{
    if es.len() > 0 {
        lemma_wf_elem_range(es[0]);
        lemma_wf_siblings_bounds(es.drop_first(), elem_range(es[0]).end as int, end);
    }
}

/// Each child of a well-formed node lies within the node's own range: the
/// tree never claims a range outside its parent's.
pub proof fn lemma_child_contained(n: Node, i: int)
    requires
        wf_elem(Element::Node(n)),
        0 <= i < n.children@.len(),
    ensures
        wf_elem(n.children@[i]),
        elem_range(n.children@[i]).contained_in(n.range),
{
    lemma_wf_siblings_each(n.children@, n.range.start as int, n.range.end as int, i);
}

/// The child nodes of a run of siblings, in order, tokens skipped.
pub open spec fn child_nodes(es: Seq<Element>) -> Seq<Node>
    decreases es,
{
    if es.len() == 0 {
        Seq::<Node>::empty()
    } else {
        let rest = child_nodes(es.drop_first());
        match es[0] {
            Element::Node(n) => seq![n] + rest,
            Element::Token(_) => rest,
        }
    }
}

/// Appending one sibling extends the child-node list by that sibling's
/// node, if it is one.
pub proof fn lemma_child_nodes_push(es: Seq<Element>, x: Element)
    ensures
        child_nodes(es.push(x)) == match x {
            Element::Node(n) => child_nodes(es).push(n),
            Element::Token(_) => child_nodes(es),
        },
    decreases es,
{
    if es.len() == 0 {
        assert(es.push(x)[0] == x);
        assert(es.push(x).drop_first() =~= Seq::<Element>::empty());
        assert(child_nodes(Seq::<Element>::empty()) == Seq::<Node>::empty());
        assert(child_nodes(es) == Seq::<Node>::empty());
        match x {
            Element::Node(n) => {
                assert(seq![n] + Seq::<Node>::empty() =~= child_nodes(es).push(n));
            },
            Element::Token(_) => {},
        }
    } else {
        assert(es.push(x)[0] == es[0]);
        assert(es.push(x).drop_first() =~= es.drop_first().push(x));
        lemma_child_nodes_push(es.drop_first(), x);
        assert(child_nodes(es.drop_first().push(x)) == match x {
            Element::Node(m) => child_nodes(es.drop_first()).push(m),
            Element::Token(_) => child_nodes(es.drop_first()),
        });
        match es[0] {
            Element::Node(n) => {
                match x {
                    Element::Node(m) => {
                        assert(seq![n] + child_nodes(es.drop_first()).push(m)
                            =~= (seq![n] + child_nodes(es.drop_first())).push(m));
                    },
                    Element::Token(_) => {},
                }
            },
            Element::Token(_) => {},
        }
    }
}

/// Appending one sibling appends its text.
pub proof fn lemma_elems_text_push(es: Seq<Element>, x: Element)
    ensures
        elems_text(es.push(x)) == elems_text(es) + elem_text(x),
    decreases es,
{
    if es.len() == 0 {
        assert(es.push(x)[0] == x);
        assert(es.push(x).drop_first() =~= Seq::<Element>::empty());
        assert(elems_text(Seq::<Element>::empty()) == Seq::<char>::empty());
        assert(elems_text(es) == Seq::<char>::empty());
        assert(elem_text(x) + Seq::<char>::empty() =~= Seq::<char>::empty() + elem_text(x));
    } else {
        assert(es.push(x)[0] == es[0]);
        assert(es.push(x).drop_first() =~= es.drop_first().push(x));
        lemma_elems_text_push(es.drop_first(), x);
        assert(elem_text(es[0]) + (elems_text(es.drop_first()) + elem_text(x))
            =~= (elem_text(es[0]) + elems_text(es.drop_first())) + elem_text(x));
    }
}

impl Node {
    /// The ordered child nodes of this node, tokens skipped.
    pub open spec fn spec_child_nodes(self) -> Seq<Node> {
        child_nodes(self.children@)
    }

    /// Fetches the `i`-th child node (tokens skipped), or nothing when the
    /// node has fewer child nodes than that.
    pub fn nth_child_node(&self, i: usize) -> (r: Option<&Node>)
        ensures
            match r {
                Some(m) => i < self.spec_child_nodes().len() && *m == self.spec_child_nodes()[i as int],
                None => i >= self.spec_child_nodes().len(),
            },
    {
        let mut j: usize = 0;
        let mut seen: usize = 0;
        while j < self.children.len()
            invariant
                j <= self.children.len(),
                seen == child_nodes(self.children@.subrange(0, j as int)).len(),
                seen <= i,
                child_nodes(self.children@.subrange(0, j as int))
                    =~= self.spec_child_nodes().subrange(0, seen as int),
            decreases self.children.len() - j,
        {
            proof {
                assert(self.children@.subrange(0, j + 1)
                    =~= self.children@.subrange(0, j as int).push(self.children@[j as int]));
                lemma_child_nodes_push(self.children@.subrange(0, j as int), self.children@[j as int]);
                lemma_child_nodes_prefix(self.children@, j + 1);
            }
            match &self.children[j] {
                Element::Node(m) => {
                    if seen == i {
                        proof {
                            assert(self.spec_child_nodes().subrange(0, seen + 1).last() == *m);
                        }
                        return Some(m);
                    }
                    seen = seen + 1;
                },
                Element::Token(_) => {},
            }
            j = j + 1;
        }
        proof {
            assert(self.children@.subrange(0, self.children@.len() as int) =~= self.children@);
        }
        None
    }
}

impl SyntaxKind {
    /// Runtime check mirroring `is_token_kind`.
    pub fn is_token(&self) -> (b: bool)
        ensures
            b == self.is_token_kind(),
    {
        matches!(self,
            SyntaxKind::TokIdent | SyntaxKind::TokEq | SyntaxKind::TokSemi
            | SyntaxKind::TokDot | SyntaxKind::TokLParen | SyntaxKind::TokRParen
            | SyntaxKind::TokWhitespace | SyntaxKind::TokInheritKw | SyntaxKind::TokOther)
    }
}

impl Element {
    /// The kind tag of this element.
    pub fn kind(&self) -> (k: SyntaxKind)
        ensures
            k == elem_kind(*self),
    {
        match self {
            Element::Node(n) => n.kind,
            Element::Token(t) => t.kind,
        }
    }

    /// The source range this element covers.
    pub fn range(&self) -> (r: TextRange)
        ensures
            r == elem_range(*self),
    {
        match self {
            Element::Node(n) => n.range,
            Element::Token(t) => t.range,
        }
    }
}

/// Renders a node back to its exact text: the lossless tree keeps every
/// character, so this is the identity on what was parsed.
#[verifier::loop_isolation(false)]
pub fn render_node(n: &Node) -> (r: String)
    ensures
        r@ == elem_text(Element::Node(*n)),
    decreases n,
{
    let mut out = String::new();
    let mut i: usize = 0;
    proof {
        assert(n.children@.subrange(0, 0) =~= Seq::<Element>::empty());
        assert(elems_text(Seq::<Element>::empty()) == Seq::<char>::empty());
    }
    while i < n.children.len()
        invariant
            i <= n.children.len(),
            out@ == elems_text(n.children@.subrange(0, i as int)),
        decreases n.children.len() - i,
    {
        let piece = render_elem(&n.children[i]);
        out.append(piece.as_str());
        proof {
            assert(n.children@.subrange(0, i + 1)
                =~= n.children@.subrange(0, i as int).push(n.children@[i as int]));
            lemma_elems_text_push(n.children@.subrange(0, i as int), n.children@[i as int]);
        }
        i = i + 1;
    }
    proof {
        assert(n.children@.subrange(0, n.children@.len() as int) =~= n.children@);
    }
    out
}

/// Renders an element, node or token alike, back to its exact text.
pub fn render_elem(e: &Element) -> (r: String)
    ensures
        r@ == elem_text(*e),
    decreases e,
{
    match e {
        Element::Token(t) => t.text.clone(),
        Element::Node(n) => render_node(n),
    }
}

/// Checks the structural precondition of a pass: returns whether the tree
/// is well formed. A tree a lossless parser produced always is; a corrupt
/// one must make the pass abort rather than lint part of it.
#[verifier::loop_isolation(false)]
pub fn check_wf(e: &Element) -> (b: bool)
    ensures
        b == wf_elem(*e),
    decreases e,
{
    match e {
        Element::Token(t) => {
            proof {
                lemma_wf_token_iff(*t);
            }
            t.kind.is_token() && t.range.start <= t.range.end
                && t.range.end - t.range.start == t.text.as_str().unicode_len()
        },
        Element::Node(n) => {
            proof {
                lemma_wf_node_iff(*n);
            }
            if n.kind.is_token() || n.range.start > n.range.end {
                return false;
            }
            let ghost end = n.range.end as int;
            let mut cur: usize = n.range.start;
            let mut i: usize = 0;
            proof {
                assert(n.children@.skip(0) =~= n.children@);
            }
            while i < n.children.len()
                invariant
                    i <= n.children.len(),
                    n.range.start <= cur <= n.range.end,
                    wf_siblings(n.children@, n.range.start as int, end)
                        <==> wf_siblings(n.children@.skip(i as int), cur as int, end),
                decreases n.children.len() - i,
            {
                proof {
                    assert(n.children@.skip(i as int)[0] == n.children@[i as int]);
                    assert(n.children@.skip(i as int).drop_first() =~= n.children@.skip(i + 1));
                }
                let child = &n.children[i];
                let cr = child.range();
                if cr.start != cur || !check_wf(child) {
                    return false;
                }
                proof {
                    lemma_wf_elem_range(n.children@[i as int]);
                }
                if cr.end > n.range.end {
                    proof {
                        if wf_siblings(n.children@.skip(i + 1), cr.end as int, end) {
                            lemma_wf_siblings_bounds(n.children@.skip(i + 1), cr.end as int, end);
                        }
                    }
                    return false;
                }
                cur = cr.end;
                i = i + 1;
            }
            proof {
                assert(n.children@.skip(n.children@.len() as int) =~= Seq::<Element>::empty());
                assert(wf_siblings(Seq::<Element>::empty(), cur as int, end) <==> cur as int == end);
            }
            cur == n.range.end
        },
    }
}

/// Every child node of a well-formed run of siblings is itself well
/// formed and lies within the tiled span.
pub proof fn lemma_child_nodes_wf(es: Seq<Element>, pos: int, end: int, i: int)
    requires
        wf_siblings(es, pos, end),
        0 <= i < child_nodes(es).len(),
    ensures
        wf_elem(Element::Node(child_nodes(es)[i])),
        pos <= child_nodes(es)[i].range.start,
        child_nodes(es)[i].range.end <= end,
    decreases es,
{
    let tail = es.drop_first();
    let tail_pos = elem_range(es[0]).end as int;
    lemma_wf_elem_range(es[0]);
    match es[0] {
        Element::Node(n0) => {
            assert(child_nodes(es) == seq![n0] + child_nodes(tail));
            if i == 0 {
                assert(child_nodes(es)[0] == n0);
                lemma_wf_siblings_bounds(tail, tail_pos, end);
            } else {
                assert(child_nodes(es)[i] == child_nodes(tail)[i - 1]);
                lemma_child_nodes_wf(tail, tail_pos, end, i - 1);
            }
        },
        Element::Token(_) => {
            assert(child_nodes(es) == child_nodes(tail));
            lemma_child_nodes_wf(tail, tail_pos, end, i);
        },
    }
}

/// A prefix of the siblings contributes a prefix of the child nodes.
pub proof fn lemma_child_nodes_prefix(es: Seq<Element>, j: int)
    requires
        0 <= j <= es.len(),
    ensures
        child_nodes(es.subrange(0, j)).len() <= child_nodes(es).len(),
        child_nodes(es.subrange(0, j)) =~= child_nodes(es).subrange(0, child_nodes(es.subrange(0, j)).len() as int),
    decreases es.len() - j,
{
    if j == es.len() {
        assert(es.subrange(0, j) =~= es);
    } else {
        assert(es.subrange(0, j + 1) =~= es.subrange(0, j).push(es[j]));
        lemma_child_nodes_push(es.subrange(0, j), es[j]);
        lemma_child_nodes_prefix(es, j + 1);
    }
}

} // verus!
