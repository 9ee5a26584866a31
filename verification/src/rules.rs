//! The rule catalog and the guarded structural matcher. Each rule is a
//! named, stateless strategy: `validate` is a pure function of the node
//! and the session, a chain of optional bindings that aborts with "no
//! match" on the first failure and only reports once every piece of a
//! valid fix is in hand.

use vstd::prelude::*;
use crate::TextRange;
use crate::report::{Report, ReportV, Suggestion, SuggestionV};
use crate::session::SessionInfo;
use crate::syntax::{
    Element, Node, SyntaxKind, child_nodes, elem_range, elem_text, render_node,
    wf_elem, lemma_child_nodes_wf, lemma_wf_node_iff, lemma_wf_text_len,
};
use crate::make::{inherit_from_stmt, inherit_from_text, inherit_stmt, inherit_text};

verus! {

/// The rules this engine ships: assignments that restate a name and are
/// better written as inherit statements.
#[derive(Clone, Copy, PartialEq, Eq, Structural, Debug)]
pub enum RuleId {
    ManualInherit,
    ManualInheritFrom,
}

impl RuleId {
    /// The rule's unique name.
    pub open spec fn spec_name(self) -> Seq<char> {
        match self {
            RuleId::ManualInherit => "manual_inherit"@,
            RuleId::ManualInheritFrom => "manual_inherit_from"@,
        }
    }

    /// The rule's stable numeric code.
    pub open spec fn spec_code(self) -> u32 {
        match self {
            RuleId::ManualInherit => 3,
            RuleId::ManualInheritFrom => 4,
        }
    }

    /// The rule's short description.
    pub open spec fn spec_note(self) -> Seq<char> {
        match self {
            RuleId::ManualInherit => "Assignment instead of inherit"@,
            RuleId::ManualInheritFrom => "Assignment instead of inherit from"@,
        }
    }

    /// The syntax kinds the rule subscribes to: both rules here inspect
    /// key/value bindings.
    pub open spec fn subscribes_to(self, kind: SyntaxKind) -> bool {
        kind == SyntaxKind::AttrpathValue
    }

    pub fn name(&self) -> (r: String)
        ensures
            r@ == self.spec_name(),
    {
        match self {
            RuleId::ManualInherit => "manual_inherit".to_owned(),
            RuleId::ManualInheritFrom => "manual_inherit_from".to_owned(),
        }
    }

    pub fn code(&self) -> (c: u32)
        ensures
            c == self.spec_code(),
    {
        match self {
            RuleId::ManualInherit => 3,
            RuleId::ManualInheritFrom => 4,
        }
    }

    pub fn note(&self) -> (r: String)
        ensures
            r@ == self.spec_note(),
    {
        match self {
            RuleId::ManualInherit => "Assignment instead of inherit".to_owned(),
            RuleId::ManualInheritFrom => "Assignment instead of inherit from".to_owned(),
        }
    }

    /// Runtime check mirroring `subscribes_to`.
    pub fn matches_kind(&self, kind: SyntaxKind) -> (b: bool)
        ensures
            b == self.subscribes_to(kind),
    {
        kind == SyntaxKind::AttrpathValue
    }
}

/// The message both rules attach to their reports.
pub open spec fn rule_message() -> Seq<char> {
    "This assignment is better written with `inherit`"@
}

/// The key path of a binding node: its first child node, which must be an
/// attribute path. Absent on malformed trees; absence means "no match".
pub open spec fn binding_key(n: Node) -> Option<Node> {
    let cn = child_nodes(n.children@);
    if cn.len() >= 1 && cn[0].kind == SyntaxKind::Attrpath {
        Some(cn[0])
    } else {
        None
    }
}

/// The value of a binding node: its second child node. Absent on
/// malformed trees; absence means "no match".
pub open spec fn binding_value(n: Node) -> Option<Node> {
    let cn = child_nodes(n.children@);
    if cn.len() >= 2 {
        Some(cn[1])
    } else {
        None
    }
}

/// The single identifier segment of a key path: present exactly when the
/// path has one segment and that segment is an identifier. An inherit
/// statement can only bind a bare name, so rules that synthesize one
/// deliberately match nothing else.
pub open spec fn single_ident_key(key_path: Node) -> Option<Node> {
    let attrs = child_nodes(key_path.children@);
    if attrs.len() == 1 && attrs[0].kind == SyntaxKind::Ident {
        Some(attrs[0])
    } else {
        None
    }
}

/// The base expression of a selection `base.path`: its first child node,
/// which must not itself be the selection path. However complex, it is
/// everything before the first dot.
pub open spec fn select_base(v: Node) -> Option<Node> {
    let cn = child_nodes(v.children@);
    if cn.len() >= 1 && cn[0].kind != SyntaxKind::Attrpath {
        Some(cn[0])
    } else {
        None
    }
}

/// The first selected segment of a selection `base.first…`: segments
/// after it are never consulted.
pub open spec fn select_first_attr(v: Node) -> Option<Node> {
    let cn = child_nodes(v.children@);
    if cn.len() >= 2 && cn[1].kind == SyntaxKind::Attrpath {
        let attrs = child_nodes(cn[1].children@);
        if attrs.len() >= 1 {
            Some(attrs[0])
        } else {
            None
        }
    } else {
        None
    }
}

/// When the first rule matches an element: a binding `key = value;` whose
/// key path is exactly one identifier, whose value is a bare identifier,
/// and whose two texts are equal. The binding must cover some text, else
/// no valid replacement range could be built and the rule reports no
/// match.
pub open spec fn rule_a_matches(e: Element) -> bool {
    match e {
        Element::Node(n) => {
            &&& n.kind == SyntaxKind::AttrpathValue
            &&& n.range.start < n.range.end
            &&& binding_key(n) is Some
            &&& single_ident_key(binding_key(n)->Some_0) is Some
            &&& binding_value(n) is Some
            &&& binding_value(n)->Some_0.kind == SyntaxKind::Ident
            &&& elem_text(Element::Node(single_ident_key(binding_key(n)->Some_0)->Some_0))
                == elem_text(Element::Node(binding_value(n)->Some_0))
        },
        Element::Token(_) => false,
    }
}

/// The key text of a binding the first rule matched.
pub open spec fn rule_a_key_text(e: Element) -> Seq<char> {
    elem_text(Element::Node(single_ident_key(binding_key(e->Node_0)->Some_0)->Some_0))
}

/// When the second rule matches an element: a binding `key = base.first…;`
/// whose key path is exactly one identifier, whose value is a selection
/// with a well-defined base, and whose key text equals the text of the
/// *first* selected segment — later segments never matter.
pub open spec fn rule_b_matches(e: Element) -> bool {
    match e {
        Element::Node(n) => {
            &&& n.kind == SyntaxKind::AttrpathValue
            &&& n.range.start < n.range.end
            &&& binding_key(n) is Some
            &&& single_ident_key(binding_key(n)->Some_0) is Some
            &&& binding_value(n) is Some
            &&& binding_value(n)->Some_0.kind == SyntaxKind::Select
            &&& select_base(binding_value(n)->Some_0) is Some
            &&& select_first_attr(binding_value(n)->Some_0) is Some
            &&& select_first_attr(binding_value(n)->Some_0)->Some_0.kind == SyntaxKind::Ident
            &&& elem_text(Element::Node(single_ident_key(binding_key(n)->Some_0)->Some_0))
                == elem_text(Element::Node(select_first_attr(binding_value(n)->Some_0)->Some_0))
        },
        Element::Token(_) => false,
    }
}

/// The text of the base expression of a binding the second rule matched.
pub open spec fn rule_b_base_text(e: Element) -> Seq<char> {
    elem_text(Element::Node(select_base(binding_value(e->Node_0)->Some_0)->Some_0))
}

/// The report the first rule emits on a match.
pub open spec fn rule_a_report(e: Element) -> ReportV {
    ReportV {
        name: RuleId::ManualInherit.spec_name(),
        code: RuleId::ManualInherit.spec_code(),
        note: RuleId::ManualInherit.spec_note(),
        message: rule_message(),
        at: elem_range(e),
        suggestion: Some(SuggestionV {
            at: elem_range(e),
            kind: SyntaxKind::Inherit,
            text: inherit_text(rule_a_key_text(e)),
        }),
    }
}

/// The report the second rule emits on a match.
pub open spec fn rule_b_report(e: Element) -> ReportV {
    ReportV {
        name: RuleId::ManualInheritFrom.spec_name(),
        code: RuleId::ManualInheritFrom.spec_code(),
        note: RuleId::ManualInheritFrom.spec_note(),
        message: rule_message(),
        at: elem_range(e),
        suggestion: Some(SuggestionV {
            at: elem_range(e),
            kind: SyntaxKind::Inherit,
            text: inherit_from_text(rule_b_base_text(e), rule_a_key_text(e)),
        }),
    }
}

/// What a rule answers on an element: the rule's report when its guarded
/// match succeeds, and "no match" otherwise. A pure function of rule,
/// element and session.
pub open spec fn validate_spec(rule: RuleId, e: Element, sess: SessionInfo) -> Option<ReportV> {
    match rule {
        RuleId::ManualInherit => if rule_a_matches(e) {
            Some(rule_a_report(e))
        } else {
            None
        },
        RuleId::ManualInheritFrom => if rule_b_matches(e) {
            Some(rule_b_report(e))
        } else {
            None
        },
    }
}

/// The message both rules attach, as an owned string.
fn message_string() -> (r: String)
    ensures
        r@ == rule_message(),
{
    "This assignment is better written with `inherit`".to_owned()
}

/// The guarded matcher of the first rule: `key = key;` becomes
/// `inherit key;`.
fn rule_a_validate(e: &Element, _sess: &SessionInfo) -> (r: Option<Report>)
    requires
        wf_elem(*e),
        2 * elem_range(*e).end + 32 <= usize::MAX,
    ensures
        match r {
            Some(rep) => rule_a_matches(*e) && rep@ == rule_a_report(*e) && rep.wf(),
            None => !rule_a_matches(*e),
        },
{
    let n = match e {
        Element::Node(n) => n,
        Element::Token(_) => {
            return None;
        },
    };
    if !(n.kind == SyntaxKind::AttrpathValue) {
        return None;
    }
    if !(n.range.start < n.range.end) {
        return None;
    }
    let key_path = match n.nth_child_node(0) {
        Some(k) => k,
        None => {
            return None;
        },
    };
    if !(key_path.kind == SyntaxKind::Attrpath) {
        return None;
    }
    let key = match key_path.nth_child_node(0) {
        Some(k) => k,
        None => {
            return None;
        },
    };
    if key_path.nth_child_node(1).is_some() {
        return None;
    }
    if !(key.kind == SyntaxKind::Ident) {
        return None;
    }
    let value = match n.nth_child_node(1) {
        Some(v) => v,
        None => {
            return None;
        },
    };
    if !(value.kind == SyntaxKind::Ident) {
        return None;
    }
    let key_text = render_node(key);
    let value_text = render_node(value);
    if !(key_text == value_text) {
        return None;
    }
    proof {
        lemma_wf_node_iff(*n);
        lemma_child_nodes_wf(n.children@, n.range.start as int, n.range.end as int, 0);
        lemma_child_nodes_wf(
            key_path.children@,
            key_path.range.start as int,
            key_path.range.end as int,
            0,
        );
        lemma_wf_text_len(Element::Node(*key));
        reveal_strlit("This assignment is better written with `inherit`");
    }
    let fix = inherit_stmt(key_text.as_str());
    let at = n.range;
    let sug = Suggestion::new(at, fix);
    let rule = RuleId::ManualInherit;
    let rep = Report::new(rule.name(), rule.code(), rule.note(), message_string(), at).suggest(sug);
    proof {
        assert(rep@ == rule_a_report(*e));
    }
    Some(rep)
}

/// The guarded matcher of the second rule: `key = base.key…;` becomes
/// `inherit (base) key;`, comparing the key against the *first* selected
/// segment only.
fn rule_b_validate(e: &Element, _sess: &SessionInfo) -> (r: Option<Report>)
    requires
        wf_elem(*e),
        2 * elem_range(*e).end + 32 <= usize::MAX,
    ensures
        match r {
            Some(rep) => rule_b_matches(*e) && rep@ == rule_b_report(*e) && rep.wf(),
            None => !rule_b_matches(*e),
        },
{
    let n = match e {
        Element::Node(n) => n,
        Element::Token(_) => {
            return None;
        },
    };
    if !(n.kind == SyntaxKind::AttrpathValue) {
        return None;
    }
    if !(n.range.start < n.range.end) {
        return None;
    }
    let key_path = match n.nth_child_node(0) {
        Some(k) => k,
        None => {
            return None;
        },
    };
    if !(key_path.kind == SyntaxKind::Attrpath) {
        return None;
    }
    let key = match key_path.nth_child_node(0) {
        Some(k) => k,
        None => {
            return None;
        },
    };
    if key_path.nth_child_node(1).is_some() {
        return None;
    }
    if !(key.kind == SyntaxKind::Ident) {
        return None;
    }
    let value = match n.nth_child_node(1) {
        Some(v) => v,
        None => {
            return None;
        },
    };
    if !(value.kind == SyntaxKind::Select) {
        return None;
    }
    let base = match value.nth_child_node(0) {
        Some(b) => b,
        None => {
            return None;
        },
    };
    if base.kind == SyntaxKind::Attrpath {
        return None;
    }
    let sel_path = match value.nth_child_node(1) {
        Some(p) => p,
        None => {
            return None;
        },
    };
    if !(sel_path.kind == SyntaxKind::Attrpath) {
        return None;
    }
    let first = match sel_path.nth_child_node(0) {
        Some(f) => f,
        None => {
            return None;
        },
    };
    if !(first.kind == SyntaxKind::Ident) {
        return None;
    }
    let key_text = render_node(key);
    let first_text = render_node(first);
    if !(key_text == first_text) {
        return None;
    }
    proof {
        lemma_wf_node_iff(*n);
        lemma_child_nodes_wf(n.children@, n.range.start as int, n.range.end as int, 0);
        lemma_child_nodes_wf(n.children@, n.range.start as int, n.range.end as int, 1);
        lemma_child_nodes_wf(
            key_path.children@,
            key_path.range.start as int,
            key_path.range.end as int,
            0,
        );
        lemma_wf_node_iff(*value);
        lemma_child_nodes_wf(
            value.children@,
            value.range.start as int,
            value.range.end as int,
            0,
        );
        lemma_wf_text_len(Element::Node(*key));
        lemma_wf_text_len(Element::Node(*base));
        reveal_strlit("This assignment is better written with `inherit`");
    }
    let fix = inherit_from_stmt(base, key_text.as_str());
    let at = n.range;
    let sug = Suggestion::new(at, fix);
    let rule = RuleId::ManualInheritFrom;
    let rep = Report::new(rule.name(), rule.code(), rule.note(), message_string(), at).suggest(sug);
    proof {
        assert(rep@ == rule_b_report(*e));
    }
    Some(rep)
}

/// Runs one rule's guarded matcher against one element. The chain of
/// optional bindings inside short-circuits: the first missing piece makes
/// the whole call answer "no match", with no side effects and no partial
/// report.
pub fn validate(rule: RuleId, e: &Element, sess: &SessionInfo) -> (r: Option<Report>)
    requires
        wf_elem(*e),
        2 * elem_range(*e).end + 32 <= usize::MAX,
    ensures
        match r {
            Some(rep) => validate_spec(rule, *e, *sess) == Some(rep@) && rep.wf(),
            None => validate_spec(rule, *e, *sess) is None,
        },
{
    match rule {
        RuleId::ManualInherit => rule_a_validate(e, sess),
        RuleId::ManualInheritFrom => rule_b_validate(e, sess),
    }
}

} // verus!
