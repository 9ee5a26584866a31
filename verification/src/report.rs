//! The diagnostic model: a `Report` is one finding of one rule, carrying
//! the triggering range, a message, the rule's identity, and at most one
//! `Suggestion` — a proposed fix that replaces a source range with the text
//! of a synthesized subtree.

use vstd::prelude::*;
use crate::TextRange;
use crate::syntax::{Element, Node, SyntaxKind, elem_text, render_node, wf_elem};

verus! {

use vstd::string::StrSliceExecFns;
use vstd::string::StringExecFns;

/// A proposed fix: replace the text in `at` with the rendered text of the
/// freshly synthesized subtree `fix`.
pub struct Suggestion {
    pub at: TextRange,
    pub fix: Node,
}

/// What a suggestion promises, seen mathematically: the range it edits,
/// the kind of the replacement's root, and the replacement's exact text.
pub struct SuggestionV {
    pub at: TextRange,
    pub kind: SyntaxKind,
    pub text: Seq<char>,
}

impl View for Suggestion {
    type V = SuggestionV;

    open spec fn view(&self) -> SuggestionV {
        SuggestionV { at: self.at, kind: self.fix.kind, text: elem_text(Element::Node(self.fix)) }
    }
}

impl Suggestion {
    /// A usable suggestion edits a non-empty, well-formed range and its
    /// replacement is a fully formed subtree, never a dangling fragment.
    pub open spec fn wf(self) -> bool {
        &&& self.at.wf()
        &&& self.at.start < self.at.end
        &&& wf_elem(Element::Node(self.fix))
    }

    pub fn new(at: TextRange, fix: Node) -> (s: Suggestion)
        requires
            at.start < at.end,
            wf_elem(Element::Node(fix)),
        ensures
            s.at == at,
            s.fix == fix,
            s.wf(),
    {
        Suggestion { at, fix }
    }
}

/// One diagnostic: the rule's identity (name, stable code, short note),
/// the range that triggered it, a human-readable message, and zero or one
/// suggestion.
pub struct Report {
    pub name: String,
    pub code: u32,
    pub note: String,
    pub message: String,
    pub at: TextRange,
    pub suggestion: Option<Suggestion>,
}

/// The mathematical content of a report.
pub struct ReportV {
    pub name: Seq<char>,
    pub code: u32,
    pub note: Seq<char>,
    pub message: Seq<char>,
    pub at: TextRange,
    pub suggestion: Option<SuggestionV>,
}

impl View for Report {
    type V = ReportV;

    open spec fn view(&self) -> ReportV {
        ReportV {
            name: self.name@,
            code: self.code,
            note: self.note@,
            message: self.message@,
            at: self.at,
            suggestion: match self.suggestion {
                Some(s) => Some(s@),
                None => None,
            },
        }
    }
}

impl Report {
    /// A report carries a non-empty message and a well-formed range; if it
    /// offers a suggestion, the suggestion is itself usable and edits only
    /// text inside the report's own range.
    pub open spec fn wf(self) -> bool {
        &&& self.message@.len() > 0
        &&& self.at.wf()
        &&& match self.suggestion {
                Some(s) => s.wf() && s.at.contained_in(self.at),
                None => true,
            }
    }

    /// Builds a report with no suggestion.
    pub fn new(name: String, code: u32, note: String, message: String, at: TextRange) -> (r: Report)
        requires
            message@.len() > 0,
            at.wf(),
        ensures
            r@.name == name@,
            r@.code == code,
            r@.note == note@,
            r@.message == message@,
            r@.at == at,
            r.suggestion is None,
            r.wf(),
    {
        Report { name, code, note, message, at, suggestion: None }
    }

    /// Attaches a suggestion; the fix may touch only text inside the range
    /// this report points at.
    pub fn suggest(self, s: Suggestion) -> (r: Report)
        requires
            self.wf(),
            s.wf(),
            s.at.contained_in(self.at),
        ensures
            r@.name == self@.name,
            r@.code == self@.code,
            r@.note == self@.note,
            r@.message == self@.message,
            r@.at == self@.at,
            r.suggestion == Some(s),
            r.wf(),
    {
        Report { suggestion: Some(s), ..self }
    }
}

/// What applying a suggestion means: within the original source text, the
/// characters of the edited range are replaced by the replacement's text,
/// and everything around them is untouched.
pub open spec fn apply_spec(source: Seq<char>, at: TextRange, replacement: Seq<char>) -> Seq<char> {
    source.subrange(0, at.start as int) + replacement + source.subrange(
        at.end as int,
        source.len() as int,
    )
}

/// Applies one suggestion to the original source text: pure text surgery,
/// valid only against the offsets of that original text. Applying several
/// suggestions means re-deriving offsets (or re-linting) after each one
/// unless their ranges are disjoint.
pub fn apply_suggestion(source: &str, s: &Suggestion) -> (out: String)
    requires
        s.at.end <= source@.len(),
        s.at.wf(),
    ensures
        out@ == apply_spec(source@, s.at, s@.text),
{
    let n = source.unicode_len();
    let mut out = source.substring_char(0, s.at.start).to_owned();
    let fix_text = render_node(&s.fix);
    out.append(fix_text.as_str());
    out.append(source.substring_char(s.at.end, n));
    out
}

} // verus!
