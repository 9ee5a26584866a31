//! Synthesis of replacement subtrees. A synthesized tree is rooted at
//! offset zero, like a freshly parsed fragment: its ranges describe its
//! own text, not the text it will be spliced over. Splicing is range-based
//! text surgery done by the suggestion-application step.

use vstd::prelude::*;
use crate::TextRange;
use crate::syntax::{
    Element, Node, SyntaxKind, Token, elem_range, elem_text, elems_text, wf_elem,
    wf_siblings, lemma_elems_text_push, lemma_wf_elem_range, lemma_wf_node_iff,
    lemma_wf_siblings_bounds, lemma_wf_siblings_push, lemma_wf_text_len, lemma_wf_token_iff,
};

verus! {

use vstd::string::StrSliceExecFns;

/// Appends a child that begins exactly where the run built so far ends,
/// keeping the run a contiguous, well-formed tiling.
fn push_child(cs: &mut Vec<Element>, x: Element, Ghost(pos): Ghost<int>, Ghost(cur): Ghost<int>)
    requires
        wf_siblings(old(cs)@, pos, cur),
        wf_elem(x),
        elem_range(x).start == cur,
    ensures
        final(cs)@ == old(cs)@.push(x),
        wf_siblings(final(cs)@, pos, elem_range(x).end as int),
        elems_text(final(cs)@) == elems_text(old(cs)@) + elem_text(x),
{
    proof {
        lemma_wf_siblings_push(cs@, pos, cur, x);
        lemma_elems_text_push(cs@, x);
    }
    cs.push(x);
}

/// Builds one leaf token at the given offset.
fn tok(kind: SyntaxKind, text: &str, pos: usize) -> (t: Token)
    requires
        kind.is_token_kind(),
        pos + text@.len() <= usize::MAX,
    ensures
        t.kind == kind,
        t.text@ == text@,
        t.range.start == pos,
        t.range.end == pos + text@.len(),
        wf_elem(Element::Token(t)),
{
    let len = text.unicode_len();
    let t = Token { kind, text: text.to_owned(), range: TextRange { start: pos, end: pos + len } };
    proof {
        lemma_wf_token_iff(t);
    }
    t
}

/// Builds an identifier node (one identifier token inside it) at the
/// given offset.
pub fn ident(name: &str, pos: usize) -> (r: Node)
    requires
        pos + name@.len() <= usize::MAX,
    ensures
        r.kind == SyntaxKind::Ident,
        wf_elem(Element::Node(r)),
        elem_text(Element::Node(r)) == name@,
        r.range.start == pos,
        r.range.end == pos + name@.len(),
{
    let t = tok(SyntaxKind::TokIdent, name, pos);
    let end = t.range.end;
    let mut cs: Vec<Element> = Vec::new();
    proof {
        assert(wf_siblings(Seq::<Element>::empty(), pos as int, pos as int));
        assert(elems_text(Seq::<Element>::empty()) == Seq::<char>::empty());
    }
    push_child(&mut cs, Element::Token(t), Ghost(pos as int), Ghost(pos as int));
    let r = Node { kind: SyntaxKind::Ident, range: TextRange { start: pos, end }, children: cs };
    proof {
        lemma_wf_node_iff(r);
        assert(Seq::<char>::empty() + name@ =~= name@);
    }
    r
}

/// Makes a structurally identical copy of a node whose ranges are laid
/// out afresh from the given offset: same kinds, same text, new offsets.
/// This is how an existing subtree is embedded into a synthesized one.
#[verifier::loop_isolation(false)]
pub fn rebase_node(n: &Node, pos: usize) -> (r: Node)
    requires
        wf_elem(Element::Node(*n)),
        pos + n.range.end - n.range.start <= usize::MAX,
    ensures
        wf_elem(Element::Node(r)),
        r.kind == n.kind,
        elem_text(Element::Node(r)) == elem_text(Element::Node(*n)),
        r.range.start == pos,
        r.range.end == pos + n.range.end - n.range.start,
    decreases n,
{
    proof {
        lemma_wf_node_iff(*n);
    }
    let mut out: Vec<Element> = Vec::new();
    let mut cur: usize = pos;
    let mut i: usize = 0;
    proof {
        assert(n.children@.skip(0) =~= n.children@);
        assert(wf_siblings(Seq::<Element>::empty(), pos as int, pos as int));
        assert(elems_text(Seq::<Element>::empty()) == Seq::<char>::empty());
        assert(n.children@.subrange(0, 0) =~= Seq::<Element>::empty());
    }
    while i < n.children.len()
        invariant
            i <= n.children.len(),
            pos <= cur,
            cur - pos == ((n.range.start + cur) - pos) - n.range.start,
            wf_siblings(
                n.children@.skip(i as int),
                n.range.start + cur - pos,
                n.range.end as int,
            ),
            wf_siblings(out@, pos as int, cur as int),
            elems_text(out@) == elems_text(n.children@.subrange(0, i as int)),
        decreases n.children.len() - i,
    {
        proof {
            assert(n.children@.skip(i as int)[0] == n.children@[i as int]);
            assert(n.children@.skip(i as int).drop_first() =~= n.children@.skip(i + 1));
            lemma_wf_elem_range(n.children@[i as int]);
            lemma_wf_siblings_bounds(
                n.children@.skip(i + 1),
                elem_range(n.children@[i as int]).end as int,
                n.range.end as int,
            );
            assert(n.children@.subrange(0, i + 1)
                =~= n.children@.subrange(0, i as int).push(n.children@[i as int]));
            lemma_elems_text_push(n.children@.subrange(0, i as int), n.children@[i as int]);
        }
        let child = &n.children[i];
        match child {
            Element::Token(t) => {
                proof {
                    lemma_wf_token_iff(*t);
                }
                let len = t.range.end - t.range.start;
                let t2 = Token {
                    kind: t.kind,
                    text: t.text.clone(),
                    range: TextRange { start: cur, end: cur + len },
                };
                proof {
                    lemma_wf_token_iff(t2);
                }
                push_child(&mut out, Element::Token(t2), Ghost(pos as int), Ghost(cur as int));
                cur = cur + len;
            },
            Element::Node(m) => {
                let len = m.range.end - m.range.start;
                let m2 = rebase_node(m, cur);
                push_child(&mut out, Element::Node(m2), Ghost(pos as int), Ghost(cur as int));
                cur = cur + len;
            },
        }
        i = i + 1;
    }
    proof {
        assert(n.children@.skip(n.children@.len() as int) =~= Seq::<Element>::empty());
        assert(n.children@.subrange(0, n.children@.len() as int) =~= n.children@);
    }
    let r = Node { kind: n.kind, range: TextRange { start: pos, end: cur }, children: out };
    proof {
        lemma_wf_node_iff(r);
    }
    r
}

/// The text of the statement that brings a name into scope without
/// restating its value.
pub open spec fn inherit_text(name: Seq<char>) -> Seq<char> {
    "inherit"@ + " "@ + name + ";"@
}

/// The text of the statement that brings a name into scope out of a base
/// expression.
pub open spec fn inherit_from_text(base: Seq<char>, name: Seq<char>) -> Seq<char> {
    "inherit"@ + " "@ + "("@ + base + ")"@ + " "@ + name + ";"@
}

/// Builds the subtree for `inherit <name>;`, rooted at offset zero.
pub fn inherit_stmt(name: &str) -> (r: Node)
    requires
        name@.len() + 16 <= usize::MAX,
    ensures
        r.kind == SyntaxKind::Inherit,
        wf_elem(Element::Node(r)),
        elem_text(Element::Node(r)) == inherit_text(name@),
        r.range.start == 0,
        r.range.end == inherit_text(name@).len(),
{
    proof {
        reveal_strlit("inherit");
        reveal_strlit(" ");
        reveal_strlit(";");
    }
    let mut cs: Vec<Element> = Vec::new();
    let mut cur: usize = 0;
    proof {
        assert(wf_siblings(Seq::<Element>::empty(), 0int, 0int));
        assert(elems_text(Seq::<Element>::empty()) == Seq::<char>::empty());
    }
    let t = tok(SyntaxKind::TokInheritKw, "inherit", cur);
    let t_end = t.range.end;
    push_child(&mut cs, Element::Token(t), Ghost(0int), Ghost(cur as int));
    cur = t_end;
    let t = tok(SyntaxKind::TokWhitespace, " ", cur);
    let t_end = t.range.end;
    push_child(&mut cs, Element::Token(t), Ghost(0int), Ghost(cur as int));
    cur = t_end;
    let id = ident(name, cur);
    let id_end = id.range.end;
    push_child(&mut cs, Element::Node(id), Ghost(0int), Ghost(cur as int));
    cur = id_end;
    let t = tok(SyntaxKind::TokSemi, ";", cur);
    let t_end = t.range.end;
    push_child(&mut cs, Element::Token(t), Ghost(0int), Ghost(cur as int));
    cur = t_end;
    let r = Node {
        kind: SyntaxKind::Inherit,
        range: TextRange { start: 0, end: cur },
        children: cs,
    };
    proof {
        lemma_wf_node_iff(r);
        assert(elems_text(r.children@) =~= inherit_text(name@));
    }
    r
}

/// Builds the subtree for `inherit (<base>) <name>;`, rooted at offset
/// zero, embedding a re-ranged copy of the base expression.
pub fn inherit_from_stmt(base: &Node, name: &str) -> (r: Node)
    requires
        wf_elem(Element::Node(*base)),
        (base.range.end - base.range.start) + name@.len() + 16 <= usize::MAX,
    ensures
        r.kind == SyntaxKind::Inherit,
        wf_elem(Element::Node(r)),
        elem_text(Element::Node(r)) == inherit_from_text(
            elem_text(Element::Node(*base)),
            name@,
        ),
        r.range.start == 0,
        r.range.end == inherit_from_text(elem_text(Element::Node(*base)), name@).len(),
{
    proof {
        reveal_strlit("inherit");
        reveal_strlit(" ");
        reveal_strlit("(");
        reveal_strlit(")");
        reveal_strlit(";");
        lemma_wf_text_len(Element::Node(*base));
    }
    let mut cs: Vec<Element> = Vec::new();
    let mut cur: usize = 0;
    proof {
        assert(wf_siblings(Seq::<Element>::empty(), 0int, 0int));
        assert(elems_text(Seq::<Element>::empty()) == Seq::<char>::empty());
    }
    let t = tok(SyntaxKind::TokInheritKw, "inherit", cur);
    let t_end = t.range.end;
    push_child(&mut cs, Element::Token(t), Ghost(0int), Ghost(cur as int));
    cur = t_end;
    let t = tok(SyntaxKind::TokWhitespace, " ", cur);
    let t_end = t.range.end;
    push_child(&mut cs, Element::Token(t), Ghost(0int), Ghost(cur as int));
    cur = t_end;
    let t = tok(SyntaxKind::TokLParen, "(", cur);
    let t_end = t.range.end;
    push_child(&mut cs, Element::Token(t), Ghost(0int), Ghost(cur as int));
    cur = t_end;
    let b = rebase_node(base, cur);
    let b_end = b.range.end;
    push_child(&mut cs, Element::Node(b), Ghost(0int), Ghost(cur as int));
    cur = b_end;
    let t = tok(SyntaxKind::TokRParen, ")", cur);
    let t_end = t.range.end;
    push_child(&mut cs, Element::Token(t), Ghost(0int), Ghost(cur as int));
    cur = t_end;
    let t = tok(SyntaxKind::TokWhitespace, " ", cur);
    let t_end = t.range.end;
    push_child(&mut cs, Element::Token(t), Ghost(0int), Ghost(cur as int));
    cur = t_end;
    let id = ident(name, cur);
    let id_end = id.range.end;
    push_child(&mut cs, Element::Node(id), Ghost(0int), Ghost(cur as int));
    cur = id_end;
    let t = tok(SyntaxKind::TokSemi, ";", cur);
    let t_end = t.range.end;
    push_child(&mut cs, Element::Token(t), Ghost(0int), Ghost(cur as int));
    cur = t_end;
    let r = Node {
        kind: SyntaxKind::Inherit,
        range: TextRange { start: 0, end: cur },
        children: cs,
    };
    proof {
        lemma_wf_node_iff(r);
        assert(elems_text(r.children@) =~= inherit_from_text(
            elem_text(Element::Node(*base)),
            name@,
        ));
    }
    r
}

} // verus!
