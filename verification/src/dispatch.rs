//! The rule registry and the dispatcher. The registry is built once,
//! before any pass, and read-only afterwards. A pass walks the tree
//! pre-order, visits every node and token exactly once, asks every
//! subscribed rule at each element, and collects the reports in traversal
//! order — so the output is in source order and is a pure function of
//! (tree, registry, session).

use vstd::prelude::*;
use crate::report::{Report, ReportV};
use crate::rules::{RuleId, validate, validate_spec};
use crate::session::SessionInfo;
use crate::syntax::{
    Element, check_wf, elem_range, lemma_child_contained, wf_elem,
};

verus! {

/// The reports of a pass, seen mathematically.
pub open spec fn reports_view(rs: Seq<Report>) -> Seq<ReportV> {
    rs.map_values(|r: Report| r@)
}

/// What the registered rules, asked in registration order, report on one
/// element.
pub open spec fn reports_at(rules: Seq<RuleId>, e: Element, sess: SessionInfo) -> Seq<ReportV>
    decreases rules.len(),
{
    if rules.len() == 0 {
        Seq::<ReportV>::empty()
    } else {
        (match validate_spec(rules[0], e, sess) {
            Some(rv) => seq![rv],
            None => Seq::<ReportV>::empty(),
        }) + reports_at(rules.drop_first(), e, sess)
    }
}

/// All reports of a pre-order walk rooted at one element: first what the
/// rules say of the element itself, then, left to right, what they say of
/// everything below it.
pub open spec fn run_elem_spec(rules: Seq<RuleId>, e: Element, sess: SessionInfo) -> Seq<ReportV>
    decreases e,
{
    reports_at(rules, e, sess) + (match e {
        Element::Node(n) => run_elems_spec(rules, n.children@, sess),
        Element::Token(_) => Seq::<ReportV>::empty(),
    })
}

/// All reports of pre-order walks over a run of siblings, left to right.
pub open spec fn run_elems_spec(rules: Seq<RuleId>, es: Seq<Element>, sess: SessionInfo) -> Seq<ReportV>
    decreases es,
{
    if es.len() == 0 {
        Seq::<ReportV>::empty()
    } else {
        run_elem_spec(rules, es[0], sess) + run_elems_spec(rules, es.drop_first(), sess)
    }
}

/// Asking one more rule appends at most one report.
pub proof fn lemma_reports_at_push(rules: Seq<RuleId>, x: RuleId, e: Element, sess: SessionInfo)
    ensures
        reports_at(rules.push(x), e, sess) == reports_at(rules, e, sess) + (match validate_spec(
            x,
            e,
            sess,
        ) {
            Some(rv) => seq![rv],
            None => Seq::<ReportV>::empty(),
        }),
    decreases rules.len(),
{
    let opt = (match validate_spec(x, e, sess) {
        Some(rv) => seq![rv],
        None => Seq::<ReportV>::empty(),
    });
    if rules.len() == 0 {
        assert(rules.push(x)[0] == x);
        assert(rules.push(x).drop_first() =~= Seq::<RuleId>::empty());
        assert(reports_at(Seq::<RuleId>::empty(), e, sess) == Seq::<ReportV>::empty());
        assert(reports_at(rules, e, sess) == Seq::<ReportV>::empty());
        assert(opt + Seq::<ReportV>::empty() =~= Seq::<ReportV>::empty() + opt);
    } else {
        assert(rules.push(x)[0] == rules[0]);
        assert(rules.push(x).drop_first() =~= rules.drop_first().push(x));
        lemma_reports_at_push(rules.drop_first(), x, e, sess);
        let head = (match validate_spec(rules[0], e, sess) {
            Some(rv) => seq![rv],
            None => Seq::<ReportV>::empty(),
        });
        assert(head + (reports_at(rules.drop_first(), e, sess) + opt)
            =~= (head + reports_at(rules.drop_first(), e, sess)) + opt);
    }
}

/// Walking one more sibling appends that sibling's reports.
pub proof fn lemma_run_elems_push(rules: Seq<RuleId>, es: Seq<Element>, x: Element, sess: SessionInfo)
    ensures
        run_elems_spec(rules, es.push(x), sess) == run_elems_spec(rules, es, sess)
            + run_elem_spec(rules, x, sess),
    decreases es,
{
    if es.len() == 0 {
        assert(es.push(x)[0] == x);
        assert(es.push(x).drop_first() =~= Seq::<Element>::empty());
        assert(run_elems_spec(rules, Seq::<Element>::empty(), sess) == Seq::<ReportV>::empty());
        assert(run_elems_spec(rules, es, sess) == Seq::<ReportV>::empty());
        assert(run_elem_spec(rules, x, sess) + Seq::<ReportV>::empty()
            =~= Seq::<ReportV>::empty() + run_elem_spec(rules, x, sess));
    } else {
        assert(es.push(x)[0] == es[0]);
        assert(es.push(x).drop_first() =~= es.drop_first().push(x));
        lemma_run_elems_push(rules, es.drop_first(), x, sess);
        assert(run_elem_spec(rules, es[0], sess) + (run_elems_spec(rules, es.drop_first(), sess)
            + run_elem_spec(rules, x, sess)) =~= (run_elem_spec(rules, es[0], sess)
            + run_elems_spec(rules, es.drop_first(), sess)) + run_elem_spec(rules, x, sess));
    }
}

/// The dispatcher's failure on a structurally corrupt tree: an upstream
/// parser defect, fatal for the whole pass.
#[derive(Clone, Copy, PartialEq, Eq, Structural, Debug)]
pub enum PassError {
    CorruptTree,
}

/// The rule registry: which rules take part in a pass, in registration
/// order. Which elements a rule is asked about is decided by the kinds it
/// subscribes to.
pub struct Registry {
    pub rules: Vec<RuleId>,
}

impl Registry {
    /// An empty registry: a pass over it reports nothing.
    pub fn new() -> (r: Registry)
        ensures
            r.rules@ == Seq::<RuleId>::empty(),
    {
        Registry { rules: Vec::new() }
    }

    /// Adds a rule: it will be asked about every element whose kind it
    /// subscribes to. Rules must not depend on one another having fired,
    /// so registration order only fixes the order of reports on one and
    /// the same element.
    pub fn register(&mut self, rule: RuleId)
        ensures
            final(self).rules@ == old(self).rules@.push(rule),
    {
        self.rules.push(rule);
    }

    /// The registry with the full shipped rule catalog.
    pub fn with_default_rules() -> (r: Registry)
        ensures
            r.rules@ == seq![RuleId::ManualInherit, RuleId::ManualInheritFrom],
    {
        let mut r = Registry::new();
        r.register(RuleId::ManualInherit);
        r.register(RuleId::ManualInheritFrom);
        proof {
            assert(Seq::<RuleId>::empty().push(RuleId::ManualInherit).push(
                RuleId::ManualInheritFrom,
            ) =~= seq![RuleId::ManualInherit, RuleId::ManualInheritFrom]);
        }
        r
    }

    /// Pre-order dispatch below one element, appending to `out`.
    #[verifier::loop_isolation(false)]
    fn dispatch_elem(&self, e: &Element, sess: &SessionInfo, out: &mut Vec<Report>)
        requires
            wf_elem(*e),
            2 * elem_range(*e).end + 32 <= usize::MAX,
            forall|k: int| 0 <= k < old(out)@.len() ==> (#[trigger] old(out)@[k]).wf(),
        ensures
            reports_view(final(out)@) == reports_view(old(out)@) + run_elem_spec(
                self.rules@,
                *e,
                *sess,
            ),
            forall|k: int| 0 <= k < final(out)@.len() ==> (#[trigger] final(out)@[k]).wf(),
        decreases e,
    {
        let ghost entry = out@;
        let mut j: usize = 0;
        proof {
            assert(self.rules@.subrange(0, 0) =~= Seq::<RuleId>::empty());
            assert(reports_at(Seq::<RuleId>::empty(), *e, *sess) == Seq::<ReportV>::empty());
            assert(reports_view(entry) + Seq::<ReportV>::empty() =~= reports_view(entry));
        }
        while j < self.rules.len()
            invariant
                j <= self.rules.len(),
                reports_view(out@) == reports_view(entry) + reports_at(
                    self.rules@.subrange(0, j as int),
                    *e,
                    *sess,
                ),
                forall|k: int| 0 <= k < out@.len() ==> (#[trigger] out@[k]).wf(),
            decreases self.rules.len() - j,
        {
            let rule = self.rules[j];
            let ghost opt = (match validate_spec(rule, *e, *sess) {
                Some(rv) => seq![rv],
                None => Seq::<ReportV>::empty(),
            });
            let ghost before = out@;
            if rule.matches_kind(e.kind()) {
                match validate(rule, e, sess) {
                    Some(rep) => {
                        proof {
                            assert(reports_view(before.push(rep)) =~= reports_view(before).push(
                                rep@,
                            ));
                            assert(reports_view(before).push(rep@) =~= reports_view(before) + opt);
                        }
                        out.push(rep);
                    },
                    None => {
                        proof {
                            assert(reports_view(before) + opt =~= reports_view(before));
                        }
                    },
                }
            } else {
                proof {
                    assert(validate_spec(rule, *e, *sess) is None);
                    assert(reports_view(before) + opt =~= reports_view(before));
                }
            }
            proof {
                assert(self.rules@.subrange(0, j + 1)
                    =~= self.rules@.subrange(0, j as int).push(self.rules@[j as int]));
                lemma_reports_at_push(self.rules@.subrange(0, j as int), self.rules@[j as int], *e, *sess);
                assert(reports_view(entry) + (reports_at(self.rules@.subrange(0, j as int), *e, *sess)
                    + opt) =~= (reports_view(entry) + reports_at(
                    self.rules@.subrange(0, j as int),
                    *e,
                    *sess,
                )) + opt);
            }
            j = j + 1;
        }
        proof {
            assert(self.rules@.subrange(0, self.rules@.len() as int) =~= self.rules@);
        }
        let ghost base = reports_view(entry) + reports_at(self.rules@, *e, *sess);
        match e {
            Element::Token(_) => {
                proof {
                    assert(base + Seq::<ReportV>::empty() =~= base);
                }
            },
            Element::Node(n) => {
                let mut i: usize = 0;
                proof {
                    assert(n.children@.subrange(0, 0) =~= Seq::<Element>::empty());
                    assert(run_elems_spec(self.rules@, Seq::<Element>::empty(), *sess)
                        == Seq::<ReportV>::empty());
                    assert(base + Seq::<ReportV>::empty() =~= base);
                }
                while i < n.children.len()
                    invariant
                        i <= n.children.len(),
                        reports_view(out@) == base + run_elems_spec(
                            self.rules@,
                            n.children@.subrange(0, i as int),
                            *sess,
                        ),
                        forall|k: int| 0 <= k < out@.len() ==> (#[trigger] out@[k]).wf(),
                    decreases n.children.len() - i,
                {
                    proof {
                        lemma_child_contained(*n, i as int);
                    }
                    let ghost prefix = run_elems_spec(
                        self.rules@,
                        n.children@.subrange(0, i as int),
                        *sess,
                    );
                    self.dispatch_elem(&n.children[i], sess, out);
                    proof {
                        assert(n.children@.subrange(0, i + 1)
                            =~= n.children@.subrange(0, i as int).push(n.children@[i as int]));
                        lemma_run_elems_push(
                            self.rules@,
                            n.children@.subrange(0, i as int),
                            n.children@[i as int],
                            *sess,
                        );
                        assert((base + prefix) + run_elem_spec(self.rules@, n.children@[i as int], *sess)
                            =~= base + (prefix + run_elem_spec(
                            self.rules@,
                            n.children@[i as int],
                            *sess,
                        )));
                    }
                    i = i + 1;
                }
                proof {
                    assert(n.children@.subrange(0, n.children@.len() as int) =~= n.children@);
                }
            },
        }
        proof {
            assert(reports_view(out@) =~= reports_view(entry) + run_elem_spec(
                self.rules@,
                *e,
                *sess,
            ));
        }
    }

    /// One full pass: a pre-order depth-first walk over every node and
    /// token reachable from the root, each visited exactly once; at each
    /// element every subscribed rule is invoked; every report is kept, in
    /// traversal order. The result is pinned to a function of the tree,
    /// the registry and the session: running the same pass twice on an
    /// unmodified tree gives identical report sequences.
    pub fn run(&self, root: &Element, sess: &SessionInfo) -> (reports: Vec<Report>)
        requires
            wf_elem(*root),
            2 * elem_range(*root).end + 32 <= usize::MAX,
        ensures
            reports_view(reports@) == run_elem_spec(self.rules@, *root, *sess),
            forall|k: int| 0 <= k < reports@.len() ==> (#[trigger] reports@[k]).wf(),
    {
        let mut out: Vec<Report> = Vec::new();
        proof {
            assert(reports_view(Seq::<Report>::empty()) =~= Seq::<ReportV>::empty());
        }
        self.dispatch_elem(root, sess, &mut out);
        proof {
            assert(Seq::<ReportV>::empty() + run_elem_spec(self.rules@, *root, *sess)
                =~= run_elem_spec(self.rules@, *root, *sess));
        }
        out
    }

    /// A pass that first checks the structural precondition: a corrupt
    /// tree (one whose ranges do not tile) aborts the whole pass with a
    /// single fatal error; a well-formed one yields the full, ordered
    /// report list. There is no partial, silently truncated outcome.
    pub fn run_checked(&self, root: &Element, sess: &SessionInfo) -> (r: Result<
        Vec<Report>,
        PassError,
    >)
        requires
            2 * elem_range(*root).end + 32 <= usize::MAX,
        ensures
            match r {
                Ok(reports) => {
                    &&& wf_elem(*root)
                    &&& reports_view(reports@) == run_elem_spec(self.rules@, *root, *sess)
                    &&& forall|k: int| 0 <= k < reports@.len() ==> (#[trigger] reports@[k]).wf()
                },
                Err(pe) => !wf_elem(*root) && pe == PassError::CorruptTree,
            },
    {
        if !check_wf(root) {
            return Err(PassError::CorruptTree);
        }
        Ok(self.run(root, sess))
    }
}

} // verus!
