//! The per-key result of a batch resolution: either a resolved value or
//! an error message, never both and never neither. The tagged union
//! makes that invariant structural.

use vstd::prelude::*;

verus! {

/// What one requested record key resolved to.
#[derive(Debug)]
pub enum Outcome {
    /// The space-joined text of the TXT records found.
    Value(String),
    /// Why no value could be produced for this key.
    Error(String),
}

impl Outcome {
    /// The resolved text, absent on an error outcome.
    pub open spec fn value_spec(&self) -> Option<Seq<char>> {
        match self {
            Outcome::Value(v) => Some(v@),
            Outcome::Error(_) => None,
        }
    }

    /// The error message, absent on a value outcome.
    pub open spec fn error_spec(&self) -> Option<Seq<char>> {
        match self {
            Outcome::Value(_) => None,
            Outcome::Error(e) => Some(e@),
        }
    }

    /// The resolved text, `None` on an error outcome.
    pub fn value(&self) -> (r: Option<&String>)
        ensures
            match r {
                Some(v) => self.value_spec() == Some(v@),
                None => self.value_spec() is None,
            },
    {
        match self {
            Outcome::Value(v) => Some(v),
            Outcome::Error(_) => None,
        }
    }

    /// The error message, `None` on a value outcome.
    pub fn error(&self) -> (r: Option<&String>)
        ensures
            match r {
                Some(e) => self.error_spec() == Some(e@),
                None => self.error_spec() is None,
            },
    {
        match self {
            Outcome::Value(_) => None,
            Outcome::Error(e) => Some(e),
        }
    }
}

/// Law: every outcome carries exactly one of a value and an error —
/// one of the two accessors returns something, and never both do.
pub proof fn lemma_outcome_exactly_one(o: &Outcome)
    ensures
        o.value_spec() is Some <==> o.error_spec() is None,
{
}

} // verus!
