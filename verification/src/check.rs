//! The result of looking at one part of the system.

use vstd::prelude::*;

verus! {

/// Whether something works, with what was found.
#[derive(Debug)]
pub struct Check {
    pub ok: bool,
    pub detail: String,
}

/// A check as a mathematical value.
pub struct Finding {
    pub ok: bool,
    pub detail: Seq<char>,
}

/// The finding that something works.
pub open spec fn works(detail: Seq<char>) -> Finding {
    Finding { ok: true, detail }
}

/// The finding that something does not work.
pub open spec fn broken(detail: Seq<char>) -> Finding {
    Finding { ok: false, detail }
}

/// The findings of a sequence of checks.
pub open spec fn findings(v: Seq<Check>) -> Seq<Finding> {
    Seq::new(v.len(), |i: int| v[i]@)
}

impl View for Check {
    type V = Finding;

    open spec fn view(&self) -> Finding {
        Finding { ok: self.ok, detail: self.detail@ }
    }
}

impl Clone for Check {
    fn clone(&self) -> (r: Self)
        ensures
            r == *self,
    {
        Check { ok: self.ok, detail: self.detail.clone() }
    }
}

impl Check {
    /// A check that passed.
    pub fn ok(detail: &str) -> (r: Self)
        ensures
            r@ == works(detail@),
    {
        Check { ok: true, detail: detail.to_owned() }
    }

    /// A check that failed.
    pub fn fail(detail: &str) -> (r: Self)
        ensures
            r@ == broken(detail@),
    {
        Check { ok: false, detail: detail.to_owned() }
    }
}

} // verus!
