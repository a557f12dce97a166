use dc_compiler::classic_target::ClassicTarget;
use dc_compiler::context::Context;
use dc_compiler::errors::{BuildError, LowerReason};
use dc_compiler::ir::{BasicBlock, BinKind, Cfg, Inst, Successors};
use dc_compiler::machine::{MInst, MTerm};
use dc_compiler::Namespace;

fn one_block_cfg(name: &str, insts: Vec<Inst>) -> Cfg {
    Cfg {
        name: name.to_string(),
        blocks: vec![BasicBlock { insts, succ: Successors::Terminal }],
    }
}

#[test]
fn build_single_main() {
    let ns = Namespace {
        cfgs: vec![one_block_cfg(
            "main",
            vec![Inst::Const { dst: 0, value: 1 }, Inst::Const { dst: 1, value: 2 }],
        )],
    };
    let ctx = Context::new();
    let r = ClassicTarget::build(&"prog.dc".to_string(), &ctx, &ns, &"x86_64".to_string());
    match r {
        Ok(obj) => {
            assert_eq!(obj.functions.len(), 1);
            assert_eq!(obj.functions[0].name, "main");
            assert_eq!(obj.triple, "x86_64");
            assert_eq!(obj.filename, "prog.dc");
        }
        Err(_) => panic!("build of a supported namespace failed"),
    }
}

#[test]
fn build_main_calling_helper() {
    let helper = one_block_cfg("helper", vec![Inst::Const { dst: 0, value: 7 }]);
    let main = one_block_cfg(
        "main",
        vec![Inst::Call { dst: 1, callee: "helper".to_string(), args: vec![0] }],
    );
    let ns = Namespace { cfgs: vec![helper, main] };
    let ctx = Context::new();
    let r = ClassicTarget::build(&"prog.dc".to_string(), &ctx, &ns, &"x86_64".to_string());
    match r {
        Ok(obj) => {
            assert_eq!(obj.functions.len(), 2);
            assert_eq!(obj.functions[0].name, "helper");
            assert_eq!(obj.functions[1].name, "main");
            let main_code = &obj.functions[1].blocks[0].insts;
            let calls: Vec<&MInst> = main_code
                .iter()
                .filter(|m| matches!(m, MInst::CallSym { .. }))
                .collect();
            assert_eq!(calls.len(), 1);
            match calls[0] {
                MInst::CallSym { callee } => assert_eq!(callee, "helper"),
                _ => unreachable!(),
            }
        }
        Err(_) => panic!("build of a supported namespace failed"),
    }
}

#[test]
fn build_rejects_unknown_intrinsic() {
    let good = one_block_cfg("fine", vec![Inst::Const { dst: 0, value: 3 }]);
    let bad = one_block_cfg(
        "uses_intrinsic",
        vec![
            Inst::Const { dst: 0, value: 3 },
            Inst::Intrinsic { dst: 1, name: "prefetch".to_string(), args: vec![0] },
        ],
    );
    let ns = Namespace { cfgs: vec![good, bad] };
    let ctx = Context::new();
    let r = ClassicTarget::build(&"prog.dc".to_string(), &ctx, &ns, &"x86_64".to_string());
    match r {
        Ok(_) => panic!("an unsupported construct must fail the build"),
        Err(BuildError::Lowering { error }) => {
            assert_eq!(error.function, "uses_intrinsic");
            match error.reason {
                LowerReason::UnknownIntrinsic { name } => assert_eq!(name, "prefetch"),
                _ => panic!("wrong lowering reason"),
            }
        }
        Err(_) => panic!("wrong error variant"),
    }
}

#[test]
fn build_rejects_unknown_architecture() {
    let ns = Namespace {
        cfgs: vec![one_block_cfg("main", vec![Inst::Const { dst: 0, value: 1 }])],
    };
    let ctx = Context::new();
    let r = ClassicTarget::build(&"prog.dc".to_string(), &ctx, &ns, &"sparc".to_string());
    match r {
        Err(BuildError::UnsupportedArchitecture { triple }) => assert_eq!(triple, "sparc"),
        _ => panic!("an unknown triple must fail with UnsupportedArchitecture"),
    }
}

#[test]
fn build_rejects_triple_without_target() {
    // The context recognizes "aarch64", but no concrete target emits for it.
    let ns = Namespace {
        cfgs: vec![one_block_cfg("main", vec![Inst::Const { dst: 0, value: 1 }])],
    };
    let ctx = Context::new();
    let r = ClassicTarget::build(&"prog.dc".to_string(), &ctx, &ns, &"aarch64".to_string());
    match r {
        Err(BuildError::UnsupportedArchitecture { triple }) => assert_eq!(triple, "aarch64"),
        _ => panic!("a triple without a target must fail with UnsupportedArchitecture"),
    }
}

#[test]
fn build_rejects_overlong_call() {
    let ns = Namespace {
        cfgs: vec![one_block_cfg(
            "caller",
            vec![Inst::Call {
                dst: 9,
                callee: "wide".to_string(),
                args: vec![0, 1, 2, 3, 4, 5, 6],
            }],
        )],
    };
    let ctx = Context::new();
    let r = ClassicTarget::build(&"prog.dc".to_string(), &ctx, &ns, &"x86_64".to_string());
    match r {
        Err(BuildError::Lowering { error }) => {
            assert_eq!(error.function, "caller");
            match error.reason {
                LowerReason::TooManyCallArgs { callee } => assert_eq!(callee, "wide"),
                _ => panic!("wrong lowering reason"),
            }
        }
        _ => panic!("a call with seven arguments must fail on six argument registers"),
    }
}

#[test]
fn build_rejects_duplicate_identity() {
    let ns = Namespace {
        cfgs: vec![
            one_block_cfg("twice", vec![Inst::Const { dst: 0, value: 1 }]),
            one_block_cfg("twice", vec![Inst::Const { dst: 0, value: 2 }]),
        ],
    };
    let ctx = Context::new();
    let r = ClassicTarget::build(&"prog.dc".to_string(), &ctx, &ns, &"x86_64".to_string());
    match r {
        Err(BuildError::DuplicateEmission { function }) => assert_eq!(function, "twice"),
        _ => panic!("a repeated identity must fail with DuplicateEmission"),
    }
}

#[test]
fn build_empty_namespace() {
    let ns = Namespace { cfgs: vec![] };
    let ctx = Context::new();
    let r = ClassicTarget::build(&"prog.dc".to_string(), &ctx, &ns, &"x86_64".to_string());
    match r {
        Ok(obj) => assert_eq!(obj.functions.len(), 0),
        Err(_) => panic!("an empty namespace must build"),
    }
}

#[test]
fn build_twice_is_identical() {
    let make_ns = || Namespace {
        cfgs: vec![
            one_block_cfg("helper", vec![Inst::Const { dst: 0, value: 7 }]),
            one_block_cfg(
                "main",
                vec![
                    Inst::Const { dst: 0, value: 40 },
                    Inst::Const { dst: 1, value: 2 },
                    Inst::BinOp { dst: 2, kind: BinKind::Add, lhs: 0, rhs: 1 },
                ],
            ),
        ],
    };
    let ctx = Context::new();
    let filename = "prog.dc".to_string();
    let triple = "x86_64".to_string();
    let r1 = ClassicTarget::build(&filename, &ctx, &make_ns(), &triple);
    let r2 = ClassicTarget::build(&filename, &ctx, &make_ns(), &triple);
    match (r1, r2) {
        (Ok(o1), Ok(o2)) => {
            assert_eq!(o1.functions.len(), o2.functions.len());
            for (f1, f2) in o1.functions.iter().zip(o2.functions.iter()) {
                assert_eq!(f1.name, f2.name);
                assert_eq!(f1.blocks, f2.blocks);
            }
        }
        _ => panic!("both builds must succeed"),
    }
}

#[test]
fn build_preserves_edges() {
    // entry branches on v0 to a jump block (1) and a terminal block (2);
    // block 1 jumps to block 2.
    let cfg = Cfg {
        name: "branchy".to_string(),
        blocks: vec![
            BasicBlock {
                insts: vec![Inst::Const { dst: 0, value: 1 }],
                succ: Successors::Branch { cond: 0, if_true: 1, if_false: 2 },
            },
            BasicBlock {
                insts: vec![Inst::Const { dst: 1, value: 5 }],
                succ: Successors::Jump { target: 2 },
            },
            BasicBlock { insts: vec![], succ: Successors::Terminal },
        ],
    };
    let ns = Namespace { cfgs: vec![cfg] };
    let ctx = Context::new();
    let r = ClassicTarget::build(&"prog.dc".to_string(), &ctx, &ns, &"x86_64".to_string());
    match r {
        Ok(obj) => {
            let f = &obj.functions[0];
            assert_eq!(f.blocks.len(), 3);
            assert_eq!(f.blocks[0].term, MTerm::JnzElse { if_true: 1, if_false: 2 });
            assert_eq!(f.blocks[1].term, MTerm::Jmp { target: 2 });
            assert_eq!(f.blocks[2].term, MTerm::Ret);
            // the branching block closes with the condition load
            match f.blocks[0].insts.last() {
                Some(MInst::Load { slot, .. }) => assert_eq!(*slot, 0),
                _ => panic!("a branching block must load its condition last"),
            }
        }
        Err(_) => panic!("build of a supported namespace failed"),
    }
}
