//! The target capability, and the lowering driver every backend shares.
//!
//! A target is a stateless strategy: it says which architecture triple it
//! emits for, which control-flow graphs it can lower, and what machine
//! function its instruction selection produces for each. The driver
//! `build_code_object` is the one driving algorithm all targets share: it
//! constructs an empty code object and emits every control-flow graph of
//! the namespace, in namespace order, aborting the whole build on the first
//! failure.

use vstd::prelude::*;

use crate::code_object::{CodeObject, CodeObjectModel};
use crate::context::Context;
use crate::errors::{BuildError, BuildErrorModel, LoweringError, LoweringErrorModel};
use crate::ir::{Cfg, CfgModel, Namespace, Successors, ns_wf};
use crate::machine::{MTerm, MachineFnModel};

verus! {

/// The machine transfer `t` realizes the source edges `s`: return for a
/// terminating block, a jump for an unconditional edge, and a non-zero /
/// zero pair for a conditional edge, to the same block indices.
pub open spec fn term_matches_succ(t: MTerm, s: Successors) -> bool {
    match s {
        Successors::Terminal => t == MTerm::Ret,
        Successors::Jump { target } => t == (MTerm::Jmp { target }),
        Successors::Branch { if_true, if_false, .. } => t == (MTerm::JnzElse {
            if_true,
            if_false,
        }),
    }
}

/// Control-flow preservation: the emitted function has one machine block
/// per source block, and each machine block transfers control exactly as
/// the source block's edges demand.
pub open spec fn machine_preserves_cfg(mf: MachineFnModel, cfg: CfgModel) -> bool {
    &&& mf.blocks.len() == cfg.blocks.len()
    &&& forall|i: int|
        0 <= i < cfg.blocks.len() ==> term_matches_succ(
            #[trigger] mf.blocks[i].term,
            cfg.blocks[i].succ,
        )
}

/// The capability every concrete backend implements: per-function
/// instruction selection and encoding, described by the target's own
/// specification functions and performed by `emit_function`.
pub trait BaseTarget: Sized {
    /// The architecture triple this target emits for.
    spec fn triple_spec(&self) -> Seq<char>;

    /// Whether this target's instruction selection can lower `cfg`.
    spec fn lowers(&self, cfg: CfgModel) -> bool;

    /// The machine function this target emits for a graph it can lower.
    spec fn lowered(&self, cfg: CfgModel) -> MachineFnModel;

    /// The failure this target reports for a graph it cannot lower.
    spec fn lower_failure(&self, cfg: CfgModel) -> LoweringErrorModel;

    /// Laws every target obeys: emission keeps the function's identity,
    /// preserves the control-flow graph's block and edge structure, and a
    /// failure names the function it arose in.
    proof fn lowered_wf(&self, cfg: CfgModel)
        requires
            cfg.wf(),
        ensures
            self.lowers(cfg) ==> self.lowered(cfg).name == cfg.name,
            self.lowers(cfg) ==> machine_preserves_cfg(self.lowered(cfg), cfg),
            !self.lowers(cfg) ==> self.lower_failure(cfg).function == cfg.name,
    ;

    /// The triple, as a value the code object can be tagged with.
    fn triple(&self) -> (s: String)
        ensures
            s@ == self.triple_spec(),
    ;

    /// Translates one control-flow graph into this target's machine
    /// representation and records the result in the code object under the
    /// function's identity. Either fully records the function's body, or
    /// fails with the target's failure for it and records nothing.
    fn emit_function(&self, obj: &mut CodeObject, cfg: &Cfg) -> (r: Result<(), LoweringError>)
        requires
            cfg@.wf(),
            !old(obj)@.names().contains(cfg@.name),
        ensures
            self.lowers(cfg@) ==> r is Ok,
            !self.lowers(cfg@) ==> (r matches Err(e) && e@ == self.lower_failure(cfg@)),
            r is Ok ==> final(obj)@ == (CodeObjectModel {
                triple: old(obj)@.triple,
                filename: old(obj)@.filename,
                functions: old(obj)@.functions.push(self.lowered(cfg@)),
            }),
            r is Err ==> final(obj)@ == old(obj)@,
    ;
}

/// What driving the emission loop over `cfgs` yields, starting from the
/// already recorded functions `acc`: the recorded functions on success, or
/// the first failure in namespace order.
pub open spec fn drive_spec<T: BaseTarget>(
    target: T,
    cfgs: Seq<CfgModel>,
    acc: Seq<MachineFnModel>,
) -> Result<Seq<MachineFnModel>, BuildErrorModel>
    decreases cfgs.len(),
{
    if cfgs.len() == 0 {
        Ok(acc)
    } else if acc.map_values(|f: MachineFnModel| f.name).contains(cfgs[0].name) {
        Err(BuildErrorModel::DuplicateEmission { function: cfgs[0].name })
    } else if !target.lowers(cfgs[0]) {
        Err(BuildErrorModel::Lowering { error: target.lower_failure(cfgs[0]) })
    } else {
        drive_spec(
            target,
            cfgs.subrange(1, cfgs.len() as int),
            acc.push(target.lowered(cfgs[0])),
        )
    }
}

/// What a whole build yields: an unsupported-architecture failure when the
/// requested triple is not the target's or the context does not recognize
/// it, and the outcome of the emission loop otherwise.
pub open spec fn build_spec<T: BaseTarget>(
    target: T,
    recognized: Seq<Seq<char>>,
    filename: Seq<char>,
    cfgs: Seq<CfgModel>,
    triple: Seq<char>,
) -> Result<CodeObjectModel, BuildErrorModel> {
    if triple != target.triple_spec() || !recognized.contains(triple) {
        Err(BuildErrorModel::UnsupportedArchitecture { triple })
    } else {
        match drive_spec(target, cfgs, Seq::<MachineFnModel>::empty()) {
            Ok(funcs) => Ok(CodeObjectModel { triple, filename, functions: funcs }),
            Err(e) => Err(e),
        }
    }
}

proof fn lemma_no_duplicates_push<A>(s: Seq<A>, x: A)
    requires
        s.no_duplicates(),
        !s.contains(x),
    ensures
        s.push(x).no_duplicates(),
{
    let t = s.push(x);
    assert forall|i: int, j: int|
        0 <= i < t.len() && 0 <= j < t.len() && i != j implies t[i] != t[j] by {
        if i < s.len() && j < s.len() {
        } else if j == s.len() {
            assert(t[i] == s[i]);
            assert(s.contains(s[i]));
        } else {
            assert(t[j] == s[j]);
            assert(s.contains(s[j]));
        }
    }
}

proof fn lemma_drive_ok<T: BaseTarget>(target: T, cfgs: Seq<CfgModel>, acc: Seq<MachineFnModel>)
    requires
        ns_wf(cfgs),
        acc.map_values(|f: MachineFnModel| f.name).no_duplicates(),
    ensures
        (match drive_spec(target, cfgs, acc) {
            Ok(funcs) => {
                &&& funcs.len() == acc.len() + cfgs.len()
                &&& (forall|i: int| 0 <= i < acc.len() ==> #[trigger] funcs[i] == acc[i])
                &&& (forall|i: int|
                    0 <= i < cfgs.len() ==> funcs[acc.len() + i] == target.lowered(
                        #[trigger] cfgs[i],
                    ))
                &&& (forall|i: int| 0 <= i < cfgs.len() ==> target.lowers(#[trigger] cfgs[i]))
                &&& funcs.map_values(|f: MachineFnModel| f.name).no_duplicates()
            },
            Err(e) => true,
        }),
    decreases cfgs.len(),
{
    if cfgs.len() == 0 {
    } else {
        let names = acc.map_values(|f: MachineFnModel| f.name);
        if names.contains(cfgs[0].name) {
        } else if !target.lowers(cfgs[0]) {
        } else {
            let rest = cfgs.subrange(1, cfgs.len() as int);
            assert(ns_wf(rest)) by {
                assert forall|k: int| 0 <= k < rest.len() implies (#[trigger] rest[k]).wf() by {
                    assert(rest[k] == cfgs[k + 1]);
                }
            }
            let acc2 = acc.push(target.lowered(cfgs[0]));
            assert(acc2.map_values(|f: MachineFnModel| f.name).no_duplicates()) by {
                target.lowered_wf(cfgs[0]);
                assert(acc2.map_values(|f: MachineFnModel| f.name) =~= names.push(cfgs[0].name));
                lemma_no_duplicates_push(names, cfgs[0].name);
            }
            lemma_drive_ok(target, rest, acc2);
            match drive_spec(target, cfgs, acc) {
                Ok(funcs) => {
                    assert forall|i: int| 0 <= i < cfgs.len() implies funcs[acc.len() + i]
                        == target.lowered(#[trigger] cfgs[i]) by {
                        if i == 0 {
                            assert(funcs[acc.len() as int] == acc2[acc.len() as int]);
                        } else {
                            assert(funcs[acc2.len() + (i - 1)] == target.lowered(rest[i - 1]));
                            assert(rest[i - 1] == cfgs[i]);
                        }
                    }
                    assert forall|i: int| 0 <= i < cfgs.len() implies target.lowers(
                        #[trigger] cfgs[i],
                    ) by {
                        if i > 0 {
                            assert(target.lowers(rest[i - 1]));
                        }
                    }
                },
                Err(e) => {},
            }
        }
    }
}

proof fn lemma_drive_ok_names<T: BaseTarget>(
    target: T,
    cfgs: Seq<CfgModel>,
    acc: Seq<MachineFnModel>,
)
    requires
        ns_wf(cfgs),
        drive_spec(target, cfgs, acc) is Ok,
        acc.map_values(|f: MachineFnModel| f.name).no_duplicates(),
    ensures
        (acc.map_values(|f: MachineFnModel| f.name) + cfgs.map_values(
            |c: CfgModel| c.name,
        )).no_duplicates(),
    decreases cfgs.len(),
{
    let names = acc.map_values(|f: MachineFnModel| f.name);
    if cfgs.len() == 0 {
        assert(names + cfgs.map_values(|c: CfgModel| c.name) =~= names);
    } else {
        let rest = cfgs.subrange(1, cfgs.len() as int);
        assert(ns_wf(rest)) by {
            assert forall|k: int| 0 <= k < rest.len() implies (#[trigger] rest[k]).wf() by {
                assert(rest[k] == cfgs[k + 1]);
            }
        }
        let acc2 = acc.push(target.lowered(cfgs[0]));
        target.lowered_wf(cfgs[0]);
        assert(acc2.map_values(|f: MachineFnModel| f.name) =~= names.push(cfgs[0].name));
        lemma_no_duplicates_push(names, cfgs[0].name);
        lemma_drive_ok_names(target, rest, acc2);
        assert(acc2.map_values(|f: MachineFnModel| f.name) + rest.map_values(
            |c: CfgModel| c.name,
        ) =~= names + cfgs.map_values(|c: CfgModel| c.name));
    }
}

proof fn lemma_drive_ok_if<T: BaseTarget>(
    target: T,
    cfgs: Seq<CfgModel>,
    acc: Seq<MachineFnModel>,
)
    requires
        ns_wf(cfgs),
        forall|i: int| 0 <= i < cfgs.len() ==> target.lowers(#[trigger] cfgs[i]),
        (acc.map_values(|f: MachineFnModel| f.name) + cfgs.map_values(
            |c: CfgModel| c.name,
        )).no_duplicates(),
    ensures
        drive_spec(target, cfgs, acc) is Ok,
    decreases cfgs.len(),
{
    let names = acc.map_values(|f: MachineFnModel| f.name);
    let all = names + cfgs.map_values(|c: CfgModel| c.name);
    if cfgs.len() == 0 {
    } else {
        assert(!names.contains(cfgs[0].name)) by {
            if names.contains(cfgs[0].name) {
                let w = choose|w: int| 0 <= w < names.len() && names[w] == cfgs[0].name;
                assert(all[w] == cfgs[0].name);
                assert(all[names.len() as int] == cfgs[0].name);
            }
        }
        assert(target.lowers(cfgs[0]));
        let rest = cfgs.subrange(1, cfgs.len() as int);
        assert(ns_wf(rest)) by {
            assert forall|k: int| 0 <= k < rest.len() implies (#[trigger] rest[k]).wf() by {
                assert(rest[k] == cfgs[k + 1]);
            }
        }
        assert(forall|i: int| 0 <= i < rest.len() ==> target.lowers(#[trigger] rest[i])) by {
            assert forall|i: int| 0 <= i < rest.len() implies target.lowers(
                #[trigger] rest[i],
            ) by {
                assert(rest[i] == cfgs[i + 1]);
            }
        }
        let acc2 = acc.push(target.lowered(cfgs[0]));
        target.lowered_wf(cfgs[0]);
        assert(acc2.map_values(|f: MachineFnModel| f.name) + rest.map_values(
            |c: CfgModel| c.name,
        ) =~= all);
        lemma_drive_ok_if(target, rest, acc2);
    }
}

/// When success is owed: a build returns a completed code object exactly
/// when the requested triple is the target's own and the context
/// recognizes it, the target's instruction selection can lower every
/// control-flow graph of the namespace, and no function identity occurs
/// twice; on every other input it returns the corresponding failure.
pub proof fn lemma_build_success_iff<T: BaseTarget>(
    target: T,
    recognized: Seq<Seq<char>>,
    filename: Seq<char>,
    cfgs: Seq<CfgModel>,
    triple: Seq<char>,
)
    requires
        ns_wf(cfgs),
    ensures
        build_spec(target, recognized, filename, cfgs, triple) is Ok <==> ({
            &&& triple == target.triple_spec()
            &&& recognized.contains(triple)
            &&& forall|i: int| 0 <= i < cfgs.len() ==> target.lowers(#[trigger] cfgs[i])
            &&& cfgs.map_values(|c: CfgModel| c.name).no_duplicates()
        }),
{
    if triple == target.triple_spec() && recognized.contains(triple) {
        let acc = Seq::<MachineFnModel>::empty();
        let acc_names = acc.map_values(|f: MachineFnModel| f.name);
        assert(acc_names =~= Seq::<Seq<char>>::empty());
        if drive_spec(target, cfgs, acc) is Ok {
            lemma_drive_ok(target, cfgs, acc);
            lemma_drive_ok_names(target, cfgs, acc);
            assert(acc_names + cfgs.map_values(|c: CfgModel| c.name) =~= cfgs.map_values(
                |c: CfgModel| c.name,
            ));
        } else {
            if (forall|i: int| 0 <= i < cfgs.len() ==> target.lowers(#[trigger] cfgs[i]))
                && cfgs.map_values(|c: CfgModel| c.name).no_duplicates() {
                assert(acc_names + cfgs.map_values(|c: CfgModel| c.name) =~= cfgs.map_values(
                    |c: CfgModel| c.name,
                ));
                lemma_drive_ok_if(target, cfgs, acc);
            }
        }
    }
}

/// A build either returns a code object recording exactly one entry per
/// control-flow graph of the namespace — in namespace order, under the
/// graph's own identity, and with no identity recorded twice — or fails
/// with nothing recorded at all.
pub proof fn lemma_build_covers_namespace<T: BaseTarget>(
    target: T,
    recognized: Seq<Seq<char>>,
    filename: Seq<char>,
    cfgs: Seq<CfgModel>,
    triple: Seq<char>,
)
    requires
        ns_wf(cfgs),
    ensures
        (match build_spec(target, recognized, filename, cfgs, triple) {
            Ok(obj) => {
                &&& obj.functions.len() == cfgs.len()
                &&& (forall|i: int|
                    0 <= i < cfgs.len() ==> (#[trigger] obj.functions[i]).name == cfgs[i].name)
                &&& obj.wf()
            },
            Err(e) => true,
        }),
{
    if triple == target.triple_spec() && recognized.contains(triple) {
        let acc = Seq::<MachineFnModel>::empty();
        assert(acc.map_values(|f: MachineFnModel| f.name) =~= Seq::<Seq<char>>::empty());
        lemma_drive_ok(target, cfgs, acc);
        match drive_spec(target, cfgs, acc) {
            Ok(funcs) => {
                assert forall|i: int| 0 <= i < cfgs.len() implies (#[trigger] funcs[i]).name
                    == cfgs[i].name by {
                    assert(funcs[0 + i] == target.lowered(cfgs[i]));
                    target.lowered_wf(cfgs[i]);
                }
            },
            Err(e) => {},
        }
    }
}

/// Idempotence of building: the build outcome is a function of the target,
/// the context's recognized triples, the filename, the namespace and the
/// requested triple alone, so two builds of the same namespace with the
/// same target and triple yield the same recorded identities and the same
/// emitted machine code — in particular the same block and edge structure.
pub proof fn lemma_build_idempotent<T: BaseTarget>(
    target: T,
    recognized: Seq<Seq<char>>,
    filename: Seq<char>,
    cfgs: Seq<CfgModel>,
    triple: Seq<char>,
    r1: Result<CodeObjectModel, BuildErrorModel>,
    r2: Result<CodeObjectModel, BuildErrorModel>,
)
    requires
        r1 == build_spec(target, recognized, filename, cfgs, triple),
        r2 == build_spec(target, recognized, filename, cfgs, triple),
    ensures
        r1 == r2,
        r1 matches Ok(o1) ==> (r2 matches Ok(o2) && o1.names() == o2.names() && o1.functions
            == o2.functions),
{
}

/// The driving algorithm every backend shares. Constructs an empty code
/// object for the requested triple and emits every control-flow graph of
/// `ns`, in namespace order. Returns the completed code object, or the
/// first failure with no partial artifact exposed.
///
/// Emission order is namespace order, entry function included: a target
/// that needs a designated function emitted first or last must declare
/// that as its own, named policy rather than rely on this driver.
pub fn build_code_object<T: BaseTarget>(
    target: &T,
    filename: &String,
    context: &Context,
    ns: &Namespace,
    triple: &String,
) -> (r: Result<CodeObject, BuildError>)
    requires
        ns_wf(ns@),
    ensures
        (match (r, build_spec(*target, context.recognized(), filename@, ns@, triple@)) {
            (Ok(obj), Ok(m)) => obj@ == m && obj@.wf(),
            (Err(e), Err(m)) => e@ == m,
            _ => false,
        }),
{
    let own = target.triple();
    if !(own == *triple) {
        return Err(BuildError::UnsupportedArchitecture { triple: triple.clone() });
    }
    let mut obj = match CodeObject::new(context, filename, triple) {
        Ok(o) => o,
        Err(e) => {
            return Err(e);
        },
    };
    proof {
        assert(ns@.subrange(0, ns@.len() as int) =~= ns@);
    }
    let n = ns.cfgs.len();
    let mut i: usize = 0;
    while i < n
        invariant
            i <= n,
            n == ns.cfgs.len(),
            ns_wf(ns@),
            triple@ == target.triple_spec(),
            context.recognized().contains(triple@),
            obj@.triple == triple@,
            obj@.filename == filename@,
            obj@.wf(),
            drive_spec(*target, ns@, Seq::<MachineFnModel>::empty()) == drive_spec(
                *target,
                ns@.subrange(i as int, ns@.len() as int),
                obj@.functions,
            ),
        decreases n - i,
    {
        let cfg = &ns.cfgs[i];
        proof {
            assert(ns@[i as int] == cfg@);
            assert(ns@[i as int].wf());
            assert(ns@.subrange(i as int, ns@.len() as int)[0] == cfg@);
        }
        if obj.contains_name(&cfg.name) {
            return Err(BuildError::DuplicateEmission { function: cfg.name.clone() });
        }
        proof {
            target.lowered_wf(cfg@);
        }
        let ghost pre = obj@;
        match target.emit_function(&mut obj, cfg) {
            Ok(u) => {
                proof {
                    assert(ns@.subrange(i as int, ns@.len() as int).subrange(
                        1,
                        ns@.len() - i,
                    ) =~= ns@.subrange(i + 1, ns@.len() as int));
                    assert(obj@.names() =~= pre.names().push(cfg@.name));
                    lemma_no_duplicates_push(pre.names(), cfg@.name);
                }
            },
            Err(e) => {
                return Err(BuildError::Lowering { error: e });
            },
        }
        i += 1;
    }
    proof {
        assert(ns@.subrange(n as int, ns@.len() as int) =~= Seq::<CfgModel>::empty());
        assert(obj@ =~= (CodeObjectModel {
            triple: triple@,
            filename: filename@,
            functions: obj@.functions,
        }));
    }
    Ok(obj)
}

} // verus!
