//! The code-emission context: an explicitly constructed, explicitly scoped
//! object holding the table of architecture triples the emission machinery
//! recognizes. One context is created per compilation unit and passed into
//! every build call; no global state is involved.

use vstd::prelude::*;
use vstd::string::StringExecFns;

verus! {

/// A compilation context. Constructing a code object is possible only for a
/// triple this context recognizes.
pub struct Context {
    triples: Vec<String>,
}

impl Context {
    /// The architecture triples this context recognizes.
    pub closed spec fn recognized(self) -> Seq<Seq<char>> {
        self.triples.deep_view()
    }

    /// A fresh context. It recognizes the triples the emission machinery is
    /// compiled with: "x86_64" and "aarch64". (A concrete target may still
    /// be missing for a recognized triple.)
    pub fn new() -> (c: Context)
        ensures
            c.recognized() =~= seq!["x86_64"@, "aarch64"@],
    {
        let mut triples: Vec<String> = Vec::new();
        triples.push(String::from_str("x86_64"));
        triples.push(String::from_str("aarch64"));
        Context { triples }
    }

    /// Whether `triple` names an architecture this context recognizes.
    pub fn recognizes(&self, triple: &String) -> (b: bool)
        ensures
            b == self.recognized().contains(triple@),
    {
        let mut i: usize = 0;
        while i < self.triples.len()
            invariant
                i <= self.triples.len(),
                forall|k: int| 0 <= k < i ==> self.triples.deep_view()[k] != triple@,
                self.recognized() == self.triples.deep_view(),
            decreases self.triples.len() - i,
        {
            if self.triples[i] == *triple {
                assert(self.recognized()[i as int] == triple@);
                return true;
            }
            i += 1;
        }
        false
    }
}

} // verus!
