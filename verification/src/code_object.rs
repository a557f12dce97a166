//! The code object: the in-memory lowered artifact for one target
//! architecture. It owns the emitted machine-level body of every function,
//! keyed by function identity, together with the triple it was built for
//! and the source filename used for diagnostics and metadata naming.

use vstd::prelude::*;

use crate::context::Context;
use crate::errors::{BuildError, BuildErrorModel};
use crate::machine::{MachineBlock, MachineFn, MachineFnModel};

verus! {

/// The accumulating lowered representation of a program for one target.
#[derive(Clone, PartialEq, Eq, Debug)]
pub struct CodeObject {
    pub triple: String,
    pub filename: String,
    pub functions: Vec<MachineFn>,
}

/// Mathematical model of a code object.
#[verifier::ext_equal]
pub struct CodeObjectModel {
    pub triple: Seq<char>,
    pub filename: Seq<char>,
    pub functions: Seq<MachineFnModel>,
}

impl View for CodeObject {
    type V = CodeObjectModel;

    open spec fn view(&self) -> CodeObjectModel {
        CodeObjectModel {
            triple: self.triple@,
            filename: self.filename@,
            functions: self.functions@.map_values(|f: MachineFn| f@),
        }
    }
}

impl CodeObjectModel {
    /// The identities recorded so far, in recording order.
    pub open spec fn names(self) -> Seq<Seq<char>> {
        self.functions.map_values(|f: MachineFnModel| f.name)
    }

    /// Internal invariant: at most one recorded entry per function identity.
    pub open spec fn wf(self) -> bool {
        self.names().no_duplicates()
    }
}

impl CodeObject {
    /// Constructs an empty code object tagged with `triple` and associated
    /// with the source filename. Fails exactly when the emission context
    /// does not recognize the triple, and then constructs nothing.
    pub fn new(context: &Context, filename: &String, triple: &String) -> (r: Result<
        CodeObject,
        BuildError,
    >)
        ensures
            context.recognized().contains(triple@) ==> (r matches Ok(obj) && obj@ == (
            CodeObjectModel {
                triple: triple@,
                filename: filename@,
                functions: Seq::<MachineFnModel>::empty(),
            })),
            !context.recognized().contains(triple@) ==> (r matches Err(e) && e@ == (
            BuildErrorModel::UnsupportedArchitecture { triple: triple@ })),
    {
        if context.recognizes(triple) {
            let obj = CodeObject {
                triple: triple.clone(),
                filename: filename.clone(),
                functions: Vec::new(),
            };
            assert(obj@.functions =~= Seq::<MachineFnModel>::empty());
            Ok(obj)
        } else {
            Err(BuildError::UnsupportedArchitecture { triple: triple.clone() })
        }
    }

    /// Whether a body is already recorded under `name`.
    pub fn contains_name(&self, name: &String) -> (b: bool)
        ensures
            b == self@.names().contains(name@),
    {
        let mut i: usize = 0;
        while i < self.functions.len()
            invariant
                i <= self.functions.len(),
                forall|k: int| 0 <= k < i ==> self@.names()[k] != name@,
            decreases self.functions.len() - i,
        {
            if self.functions[i].name == *name {
                assert(self@.names()[i as int] == name@);
                return true;
            }
            i += 1;
        }
        false
    }

    /// Resolves a function identity to the index of its recorded entry:
    /// the place a call to that symbol transfers control to. Returns the
    /// first recorded entry under that identity — the only one, for a
    /// well-formed object — and nothing exactly when the identity is not
    /// recorded.
    pub fn resolve(&self, name: &String) -> (r: Option<usize>)
        ensures
            (match r {
                Some(i) => {
                    &&& i < self@.functions.len()
                    &&& self@.functions[i as int].name == name@
                    &&& forall|k: int| 0 <= k < i ==> self@.names()[k] != name@
                },
                None => !self@.names().contains(name@),
            }),
    {
        let mut i: usize = 0;
        while i < self.functions.len()
            invariant
                i <= self.functions.len(),
                forall|k: int| 0 <= k < i ==> self@.names()[k] != name@,
            decreases self.functions.len() - i,
        {
            if self.functions[i].name == *name {
                return Some(i);
            }
            i += 1;
        }
        None
    }

    /// Inserts the lowered body for the function `identity`. The identity
    /// must not be recorded yet: recording twice is a programming-error
    /// class failure, which correct drivers rule out before calling.
    pub fn record_function(&mut self, identity: String, body: Vec<MachineBlock>)
        requires
            !old(self)@.names().contains(identity@),
        ensures
            final(self)@.functions =~= old(self)@.functions.push(
                MachineFnModel {
                    name: identity@,
                    blocks: body@.map_values(|b: MachineBlock| b@),
                },
            ),
            final(self)@.triple == old(self)@.triple,
            final(self)@.filename == old(self)@.filename,
            old(self)@.wf() ==> final(self)@.wf(),
    {
        let ghost pre = self@;
        let ghost entry = MachineFnModel {
            name: identity@,
            blocks: body@.map_values(|b: MachineBlock| b@),
        };
        self.functions.push(MachineFn { name: identity, blocks: body });
        proof {
            assert(self@.functions =~= pre.functions.push(entry));
            if pre.wf() {
                let names = self@.names();
                assert(names =~= pre.names().push(entry.name));
                assert forall|i: int, j: int| 0 <= i < j < names.len() implies names[i] != names[j]
                by {
                    if j < pre.names().len() {
                    } else {
                        assert(names[j] == entry.name);
                        assert(pre.names()[i] == names[i]);
                        assert(pre.names().contains(pre.names()[i]));
                    }
                }
            }
        }
    }
}

} // verus!
