//! Read-only context for one linting pass. It is built once before the
//! pass, never written during it, and freely copyable, so rules may be
//! invoked in any order, or in parallel, without observing each other.

use vstd::prelude::*;

verus! {

/// Pass-wide facts a rule may consult, such as which revision of the
/// language dialect the sources are written for.
#[derive(Clone, Copy, PartialEq, Eq, Structural, Debug)]
pub struct SessionInfo {
    pub lang_major: u16,
    pub lang_minor: u16,
}

impl SessionInfo {
    pub fn new(lang_major: u16, lang_minor: u16) -> (s: SessionInfo)
        ensures
            s.lang_major == lang_major,
            s.lang_minor == lang_minor,
    {
        SessionInfo { lang_major, lang_minor }
    }
}

} // verus!
