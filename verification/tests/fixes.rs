//! Checks of the synthesis and fix-application layer, and of the rules
//! invoked one at a time.

use nixlint::TextRange;
use nixlint::make::{ident, inherit_from_stmt, inherit_stmt, rebase_node};
use nixlint::report::apply_suggestion;
use nixlint::rules::{RuleId, validate};
use nixlint::session::SessionInfo;
use nixlint::syntax::{Element, Node, SyntaxKind, Token, check_wf, render_node};

fn session() -> SessionInfo {
    SessionInfo::new(2, 4)
}

fn tok(kind: SyntaxKind, text: &str, start: usize) -> Element {
    Element::Token(Token {
        kind,
        text: text.to_string(),
        range: TextRange { start, end: start + text.len() },
    })
}

fn ident_node(name: &str, start: usize) -> Element {
    Element::Node(Node {
        kind: SyntaxKind::Ident,
        range: TextRange { start, end: start + name.len() },
        children: vec![tok(SyntaxKind::TokIdent, name, start)],
    })
}

fn binding_a_eq_a() -> Element {
    let attrpath = Element::Node(Node {
        kind: SyntaxKind::Attrpath,
        range: TextRange { start: 0, end: 1 },
        children: vec![ident_node("a", 0)],
    });
    Element::Node(Node {
        kind: SyntaxKind::AttrpathValue,
        range: TextRange { start: 0, end: 6 },
        children: vec![
            attrpath,
            tok(SyntaxKind::TokWhitespace, " ", 1),
            tok(SyntaxKind::TokEq, "=", 2),
            tok(SyntaxKind::TokWhitespace, " ", 3),
            ident_node("a", 4),
            tok(SyntaxKind::TokSemi, ";", 5),
        ],
    })
}

#[test]
fn inherit_stmt_renders_exactly() {
    let stmt = inherit_stmt("foo");
    assert_eq!(stmt.kind, SyntaxKind::Inherit);
    assert_eq!(stmt.range, TextRange { start: 0, end: 12 });
    assert_eq!(render_node(&stmt), "inherit foo;");
    assert!(check_wf(&Element::Node(stmt)));
}

#[test]
fn inherit_from_stmt_renders_exactly() {
    let base = match ident_node("pkgs", 17) {
        Element::Node(n) => n,
        Element::Token(_) => unreachable!(),
    };
    let stmt = inherit_from_stmt(&base, "mtl");
    assert_eq!(stmt.kind, SyntaxKind::Inherit);
    assert_eq!(render_node(&stmt), "inherit (pkgs) mtl;");
    assert_eq!(stmt.range, TextRange { start: 0, end: 19 });
    assert!(check_wf(&Element::Node(stmt)));
}

#[test]
fn ident_builder_renders_its_name() {
    let id = ident("haskellPackages", 3);
    assert_eq!(id.kind, SyntaxKind::Ident);
    assert_eq!(id.range, TextRange { start: 3, end: 18 });
    assert_eq!(render_node(&id), "haskellPackages");
}

#[test]
fn rebase_keeps_text_and_moves_ranges() {
    let n = match binding_a_eq_a() {
        Element::Node(n) => n,
        Element::Token(_) => unreachable!(),
    };
    let moved = rebase_node(&n, 100);
    assert_eq!(moved.range, TextRange { start: 100, end: 106 });
    assert_eq!(render_node(&moved), "a = a;");
    assert!(check_wf(&Element::Node(moved)));
}

#[test]
fn applying_the_fix_rewrites_the_binding() {
    let b = binding_a_eq_a();
    let rep = validate(RuleId::ManualInherit, &b, &session()).unwrap();
    let sug = rep.suggestion.as_ref().unwrap();
    let fixed = apply_suggestion("a = a;", sug);
    assert_eq!(fixed, "inherit a;");
}

#[test]
fn applying_the_fix_leaves_surroundings_alone() {
    // The same binding embedded mid-source: only its range is replaced.
    let attrpath = Element::Node(Node {
        kind: SyntaxKind::Attrpath,
        range: TextRange { start: 2, end: 3 },
        children: vec![ident_node("a", 2)],
    });
    let b = Element::Node(Node {
        kind: SyntaxKind::AttrpathValue,
        range: TextRange { start: 2, end: 8 },
        children: vec![
            attrpath,
            tok(SyntaxKind::TokWhitespace, " ", 3),
            tok(SyntaxKind::TokEq, "=", 4),
            tok(SyntaxKind::TokWhitespace, " ", 5),
            ident_node("a", 6),
            tok(SyntaxKind::TokSemi, ";", 7),
        ],
    });
    let rep = validate(RuleId::ManualInherit, &b, &session()).unwrap();
    let sug = rep.suggestion.as_ref().unwrap();
    let fixed = apply_suggestion("{ a = a; }", sug);
    assert_eq!(fixed, "{ inherit a; }");
}

#[test]
fn fix_does_not_trigger_its_own_rule_again() {
    // The replacement standing at the fixed position is an inherit
    // statement; neither rule matches it, so re-linting cannot loop.
    let b = binding_a_eq_a();
    let rep = validate(RuleId::ManualInherit, &b, &session()).unwrap();
    let fix = rep.suggestion.unwrap().fix;
    assert!(validate(RuleId::ManualInherit, &Element::Node(fix), &session()).is_none());
}

#[test]
fn inherit_from_fix_does_not_trigger_again() {
    let base = match ident_node("p", 4) {
        Element::Node(n) => n,
        Element::Token(_) => unreachable!(),
    };
    let path = Element::Node(Node {
        kind: SyntaxKind::Attrpath,
        range: TextRange { start: 6, end: 7 },
        children: vec![ident_node("x", 6)],
    });
    let value = Element::Node(Node {
        kind: SyntaxKind::Select,
        range: TextRange { start: 4, end: 7 },
        children: vec![Element::Node(base), tok(SyntaxKind::TokDot, ".", 5), path],
    });
    let attrpath = Element::Node(Node {
        kind: SyntaxKind::Attrpath,
        range: TextRange { start: 0, end: 1 },
        children: vec![ident_node("x", 0)],
    });
    let b = Element::Node(Node {
        kind: SyntaxKind::AttrpathValue,
        range: TextRange { start: 0, end: 8 },
        children: vec![
            attrpath,
            tok(SyntaxKind::TokWhitespace, " ", 1),
            tok(SyntaxKind::TokEq, "=", 2),
            tok(SyntaxKind::TokWhitespace, " ", 3),
            value,
            tok(SyntaxKind::TokSemi, ";", 7),
        ],
    });
    let rep = validate(RuleId::ManualInheritFrom, &b, &session()).unwrap();
    let sug = rep.suggestion.unwrap();
    assert_eq!(apply_suggestion("x = p.x;", &sug), "inherit (p) x;");
    let fix = sug.fix;
    assert!(validate(RuleId::ManualInheritFrom, &Element::Node(fix), &session()).is_none());
}

#[test]
fn rule_metadata_is_stable() {
    assert_eq!(RuleId::ManualInherit.name(), "manual_inherit");
    assert_eq!(RuleId::ManualInherit.code(), 3);
    assert_eq!(RuleId::ManualInheritFrom.name(), "manual_inherit_from");
    assert_eq!(RuleId::ManualInheritFrom.code(), 4);
    assert_eq!(RuleId::ManualInheritFrom.note(), "Assignment instead of inherit from");
}

#[test]
fn missing_value_is_no_match_not_a_crash() {
    // A binding whose grammar-guaranteed value child is missing: the
    // guarded chain degrades to "no match".
    let attrpath = Element::Node(Node {
        kind: SyntaxKind::Attrpath,
        range: TextRange { start: 0, end: 1 },
        children: vec![ident_node("a", 0)],
    });
    let b = Element::Node(Node {
        kind: SyntaxKind::AttrpathValue,
        range: TextRange { start: 0, end: 4 },
        children: vec![
            attrpath,
            tok(SyntaxKind::TokWhitespace, " ", 1),
            tok(SyntaxKind::TokEq, "=", 2),
            tok(SyntaxKind::TokSemi, ";", 3),
        ],
    });
    assert!(validate(RuleId::ManualInherit, &b, &session()).is_none());
    assert!(validate(RuleId::ManualInheritFrom, &b, &session()).is_none());
}
