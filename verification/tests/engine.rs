//! End-to-end checks of the lint pass: trees are built by hand in the
//! engine's own lossless representation, exactly as a parser driver would
//! hand them over.

use nixlint::TextRange;
use nixlint::dispatch::{PassError, Registry};
use nixlint::session::SessionInfo;
use nixlint::syntax::{Element, Node, SyntaxKind, Token, check_wf, render_elem, render_node};

fn tok(kind: SyntaxKind, text: &str, start: usize) -> Element {
    Element::Token(Token {
        kind,
        text: text.to_string(),
        range: TextRange { start, end: start + text.len() },
    })
}

fn ident_node(name: &str, start: usize) -> Element {
    Element::Node(Node {
        kind: SyntaxKind::Ident,
        range: TextRange { start, end: start + name.len() },
        children: vec![tok(SyntaxKind::TokIdent, name, start)],
    })
}

fn node(kind: SyntaxKind, start: usize, end: usize, children: Vec<Element>) -> Element {
    Element::Node(Node { kind, range: TextRange { start, end }, children })
}

/// `<key> = <value>;` where the value element is given; `start` is the
/// binding's offset.
fn binding(key: &str, value: Element, start: usize) -> Element {
    let key_end = start + key.len();
    let value_end = match &value {
        Element::Node(n) => n.range.end,
        Element::Token(t) => t.range.end,
    };
    let attrpath = node(SyntaxKind::Attrpath, start, key_end, vec![ident_node(key, start)]);
    node(
        SyntaxKind::AttrpathValue,
        start,
        value_end + 1,
        vec![
            attrpath,
            tok(SyntaxKind::TokWhitespace, " ", key_end),
            tok(SyntaxKind::TokEq, "=", key_end + 1),
            tok(SyntaxKind::TokWhitespace, " ", key_end + 2),
            value,
            tok(SyntaxKind::TokSemi, ";", value_end),
        ],
    )
}

fn root(children: Vec<Element>) -> Element {
    let end = match children.last().unwrap() {
        Element::Node(n) => n.range.end,
        Element::Token(t) => t.range.end,
    };
    let start = match children.first().unwrap() {
        Element::Node(n) => n.range.start,
        Element::Token(t) => t.range.start,
    };
    node(SyntaxKind::Root, start, end, children)
}

fn session() -> SessionInfo {
    SessionInfo::new(2, 4)
}

#[test]
fn built_trees_are_well_formed() {
    let key_end = 0 + 1;
    let b = binding("a", ident_node("a", key_end + 3), 0);
    assert!(check_wf(&b));
    let r = root(vec![b]);
    assert!(check_wf(&r));
}

#[test]
fn render_is_lossless() {
    let b = binding("a", ident_node("a", 4), 0);
    assert_eq!(render_elem(&b), "a = a;");
}

#[test]
fn single_ident_binding_gets_inherit_suggestion() {
    // `a = a;` inside a scope: the first rule matches and proposes
    // `inherit a;` over the whole binding.
    let tree = root(vec![binding("a", ident_node("a", 4), 0)]);
    let reg = Registry::with_default_rules();
    let reports = reg.run(&tree, &session());
    assert_eq!(reports.len(), 1);
    let rep = &reports[0];
    assert_eq!(rep.name, "manual_inherit");
    assert_eq!(rep.code, 3);
    assert_eq!(rep.note, "Assignment instead of inherit");
    assert_eq!(rep.message, "This assignment is better written with `inherit`");
    assert_eq!(rep.at, TextRange { start: 0, end: 6 });
    let sug = rep.suggestion.as_ref().unwrap();
    assert_eq!(sug.at, TextRange { start: 0, end: 6 });
    assert_eq!(render_node(&sug.fix), "inherit a;");
}

#[test]
fn different_names_match_nothing() {
    // `b = c;`: both rules report no match.
    let tree = root(vec![binding("b", ident_node("c", 4), 0)]);
    let reg = Registry::with_default_rules();
    let reports = reg.run(&tree, &session());
    assert_eq!(reports.len(), 0);
}

/// `base.seg1.seg2…` as one selection node: base expression, then a dot,
/// then the selection path with the remaining segments.
fn select(base: Element, segments: &[&str], start: usize) -> Element {
    let base_end = match &base {
        Element::Node(n) => n.range.end,
        Element::Token(t) => t.range.end,
    };
    let mut path_children = Vec::new();
    let mut pos = base_end + 1;
    for (i, seg) in segments.iter().enumerate() {
        if i > 0 {
            path_children.push(tok(SyntaxKind::TokDot, ".", pos));
            pos += 1;
        }
        path_children.push(ident_node(seg, pos));
        pos += seg.len();
    }
    let path = node(SyntaxKind::Attrpath, base_end + 1, pos, path_children);
    node(
        SyntaxKind::Select,
        start,
        pos,
        vec![base, tok(SyntaxKind::TokDot, ".", base_end), path],
    )
}

#[test]
fn key_equal_to_last_segment_matches_nothing() {
    // `mtl = pkgs.haskellPackages.mtl;`: the first selected segment is
    // `haskellPackages`, not `mtl`, so the second rule reports no match.
    let value = select(ident_node("pkgs", 6), &["haskellPackages", "mtl"], 6);
    let tree = root(vec![binding("mtl", value, 0)]);
    let reg = Registry::with_default_rules();
    let reports = reg.run(&tree, &session());
    assert_eq!(reports.len(), 0);
}

#[test]
fn key_equal_to_first_segment_matches() {
    // `haskellPackages = pkgs.haskellPackages;`: the key equals the first
    // selected segment, so the second rule fires, and the base is
    // everything before the first dot.
    let value = select(ident_node("pkgs", 18), &["haskellPackages"], 18);
    let tree = root(vec![binding("haskellPackages", value, 0)]);
    let reg = Registry::with_default_rules();
    let reports = reg.run(&tree, &session());
    assert_eq!(reports.len(), 1);
    let rep = &reports[0];
    assert_eq!(rep.name, "manual_inherit_from");
    assert_eq!(rep.code, 4);
    assert_eq!(rep.note, "Assignment instead of inherit from");
    let sug = rep.suggestion.as_ref().unwrap();
    assert_eq!(render_node(&sug.fix), "inherit (pkgs) haskellPackages;");
}

#[test]
fn later_segments_never_affect_the_outcome() {
    // `mtl = pkgs.mtl.extra.deep;`: only the first selected segment is
    // compared, so the rule fires however many segments follow, and the
    // base boundary stays before the first dot.
    let value = select(ident_node("pkgs", 6), &["mtl", "extra", "deep"], 6);
    let tree = root(vec![binding("mtl", value, 0)]);
    let reg = Registry::with_default_rules();
    let reports = reg.run(&tree, &session());
    assert_eq!(reports.len(), 1);
    let sug = reports[0].suggestion.as_ref().unwrap();
    assert_eq!(render_node(&sug.fix), "inherit (pkgs) mtl;");
}

fn two_segment_binding() -> Element {
    // `a.b = a.b;`
    let attrpath = node(
        SyntaxKind::Attrpath,
        0,
        3,
        vec![ident_node("a", 0), tok(SyntaxKind::TokDot, ".", 1), ident_node("b", 2)],
    );
    let value = select(ident_node("a", 6), &["b"], 6);
    node(
        SyntaxKind::AttrpathValue,
        0,
        10,
        vec![
            attrpath,
            tok(SyntaxKind::TokWhitespace, " ", 3),
            tok(SyntaxKind::TokEq, "=", 4),
            tok(SyntaxKind::TokWhitespace, " ", 5),
            value,
            tok(SyntaxKind::TokSemi, ";", 9),
        ],
    )
}

#[test]
fn two_segment_key_matches_nothing() {
    // `a.b = a.b;`: a key path of two segments never matches either rule.
    let tree = root(vec![two_segment_binding()]);
    assert!(check_wf(&tree));
    let reg = Registry::with_default_rules();
    let reports = reg.run(&tree, &session());
    assert_eq!(reports.len(), 0);
}

#[test]
fn reports_come_in_source_order() {
    // Two matching bindings under one root: reports appear in source
    // order, one per binding.
    let b1 = binding("a", ident_node("a", 4), 0);
    let value2 = select(ident_node("p", 14), &["x"], 14);
    let b2 = binding("x", value2, 10);
    let spacer = tok(SyntaxKind::TokWhitespace, "    ", 6);
    let tree = root(vec![b1, spacer, b2]);
    assert!(check_wf(&tree));
    let reg = Registry::with_default_rules();
    let reports = reg.run(&tree, &session());
    assert_eq!(reports.len(), 2);
    assert_eq!(reports[0].name, "manual_inherit");
    assert_eq!(reports[0].at.start, 0);
    assert_eq!(reports[1].name, "manual_inherit_from");
    assert_eq!(reports[1].at.start, 10);
}

#[test]
fn same_pass_twice_is_identical() {
    // Determinism: running the same registry over an unmodified tree
    // twice yields identical report sequences.
    let b1 = binding("a", ident_node("a", 4), 0);
    let tree = root(vec![b1]);
    let reg = Registry::with_default_rules();
    let first = reg.run(&tree, &session());
    let second = reg.run(&tree, &session());
    assert_eq!(first.len(), second.len());
    for (x, y) in first.iter().zip(second.iter()) {
        assert_eq!(x.name, y.name);
        assert_eq!(x.code, y.code);
        assert_eq!(x.note, y.note);
        assert_eq!(x.message, y.message);
        assert_eq!(x.at, y.at);
        match (&x.suggestion, &y.suggestion) {
            (Some(s), Some(t)) => {
                assert_eq!(s.at, t.at);
                assert_eq!(render_node(&s.fix), render_node(&t.fix));
            }
            (None, None) => {}
            _ => panic!("suggestions differ between runs"),
        }
    }
}

#[test]
fn complex_base_still_matches() {
    // `x = (f q).x;`: the base may be arbitrarily complex; the rule only
    // compares the key with the first selected segment and copies the
    // base verbatim into the fix.
    let base = node(
        SyntaxKind::Paren,
        4,
        9,
        vec![
            tok(SyntaxKind::TokLParen, "(", 4),
            ident_node("f", 5),
            tok(SyntaxKind::TokWhitespace, " ", 6),
            ident_node("q", 7),
            tok(SyntaxKind::TokRParen, ")", 8),
        ],
    );
    let value = select(base, &["x"], 4);
    let tree = root(vec![binding("x", value, 0)]);
    assert!(check_wf(&tree));
    let reg = Registry::with_default_rules();
    let reports = reg.run(&tree, &session());
    assert_eq!(reports.len(), 1);
    let sug = reports[0].suggestion.as_ref().unwrap();
    assert_eq!(render_node(&sug.fix), "inherit ((f q)) x;");
}

#[test]
fn lone_token_tree_reports_nothing() {
    let tree = tok(SyntaxKind::TokWhitespace, "  ", 0);
    assert!(check_wf(&tree));
    let reg = Registry::with_default_rules();
    let reports = reg.run(&tree, &session());
    assert_eq!(reports.len(), 0);
}

#[test]
fn empty_registry_reports_nothing() {
    let tree = root(vec![binding("a", ident_node("a", 4), 0)]);
    let reg = Registry::new();
    let reports = reg.run(&tree, &session());
    assert_eq!(reports.len(), 0);
}

#[test]
fn corrupt_tree_aborts_the_pass() {
    // A child claiming a range outside its parent's is a structural
    // precondition violation: the checked pass refuses to run.
    let bad_child = ident_node("a", 40);
    let tree = node(SyntaxKind::Root, 0, 6, vec![bad_child]);
    assert!(!check_wf(&tree));
    let reg = Registry::with_default_rules();
    match reg.run_checked(&tree, &session()) {
        Err(PassError::CorruptTree) => {}
        Ok(_) => panic!("a corrupt tree must abort the pass"),
    }
}

#[test]
fn checked_pass_agrees_with_run() {
    let tree = root(vec![binding("a", ident_node("a", 4), 0)]);
    let reg = Registry::with_default_rules();
    let checked = reg.run_checked(&tree, &session()).unwrap();
    let plain = reg.run(&tree, &session());
    assert_eq!(checked.len(), plain.len());
    assert_eq!(checked[0].name, plain[0].name);
}
