//! Engine-wide laws, each proved against the contracts the rules and the
//! dispatcher publish.

use vstd::prelude::*;
use crate::report::ReportV;
use crate::rules::{
    RuleId, binding_key, binding_value, select_base, select_first_attr, validate_spec,
};
use crate::session::SessionInfo;
use crate::syntax::{Element, SyntaxKind, child_nodes, elem_kind, elem_range};
use crate::dispatch::run_elem_spec;

verus! {

/// A fix eliminates its own trigger: whatever element stands at the fixed
/// position afterwards with the replacement's root kind — the replacement
/// itself, for the rules shipped here an inherit statement — the rule that
/// produced the fix reports "no match" on it, so re-running the rule at
/// the same logical position never fires again.
pub proof fn fix_never_retriggers(rule: RuleId, e: Element, sess: SessionInfo, f: Element)
    requires
        validate_spec(rule, e, sess) is Some,
        elem_kind(f) == validate_spec(rule, e, sess)->Some_0.suggestion->Some_0.kind,
    ensures
        validate_spec(rule, f, sess) is None,
{
    assert(validate_spec(rule, e, sess)->Some_0.suggestion->Some_0.kind == SyntaxKind::Inherit);
    match f {
        Element::Node(n) => {
            assert(n.kind == SyntaxKind::Inherit);
        },
        Element::Token(_) => {},
    }
}

/// A key path of more than one segment never matches — either rule — no
/// matter what any of its segments spell: an inherit statement can only
/// bind a bare name, never a nested path.
pub proof fn multi_segment_key_never_matches(rule: RuleId, e: Element, sess: SessionInfo)
    requires
        e is Node,
        binding_key(e->Node_0) is Some,
        child_nodes(binding_key(e->Node_0)->Some_0.children@).len() > 1,
    ensures
        validate_spec(rule, e, sess) is None,
{
}

/// The second rule reads only the first selected segment: two bindings
/// that agree on kind, range, key path, and — on the value side — on the
/// selection's base and first segment get the very same answer, however
/// the later segments differ. In particular the synthesized base is
/// everything before the first dot, and nothing after it moves that
/// boundary.
pub proof fn rule_b_first_segment_only(e1: Element, e2: Element, sess: SessionInfo)
    requires
        e1 is Node,
        e2 is Node,
        e1->Node_0.kind == e2->Node_0.kind,
        e1->Node_0.range == e2->Node_0.range,
        binding_key(e1->Node_0) == binding_key(e2->Node_0),
        binding_value(e1->Node_0) is Some <==> binding_value(e2->Node_0) is Some,
        binding_value(e1->Node_0) is Some ==> {
            &&& binding_value(e1->Node_0)->Some_0.kind == binding_value(e2->Node_0)->Some_0.kind
            &&& select_base(binding_value(e1->Node_0)->Some_0) == select_base(
                binding_value(e2->Node_0)->Some_0,
            )
            &&& select_first_attr(binding_value(e1->Node_0)->Some_0) == select_first_attr(
                binding_value(e2->Node_0)->Some_0,
            )
        },
    ensures
        validate_spec(RuleId::ManualInheritFrom, e1, sess) == validate_spec(
            RuleId::ManualInheritFrom,
            e2,
            sess,
        ),
{
}

/// Every report points at the element that produced it, and its
/// suggestion edits only text inside that element's range.
pub proof fn suggestion_contained_in_trigger(rule: RuleId, e: Element, sess: SessionInfo)
    requires
        validate_spec(rule, e, sess) is Some,
    ensures
        validate_spec(rule, e, sess)->Some_0.at == elem_range(e),
        validate_spec(rule, e, sess)->Some_0.suggestion is Some,
        validate_spec(rule, e, sess)->Some_0.suggestion->Some_0.at.contained_in(elem_range(e)),
{
}

/// A pass is deterministic: its report sequence is a function of the
/// tree, the registered rules and the session alone, so two runs over an
/// unmodified tree agree report for report. The dispatcher's contract
/// pins its output to exactly this function.
pub proof fn pass_deterministic(
    rules: Seq<RuleId>,
    root: Element,
    sess: SessionInfo,
    r1: Seq<ReportV>,
    r2: Seq<ReportV>,
)
    requires
        r1 == run_elem_spec(rules, root, sess),
        r2 == run_elem_spec(rules, root, sess),
    ensures
        r1 == r2,
{
}

} // verus!
