use dc_compiler::classic_target::ClassicTarget;
use dc_compiler::code_object::CodeObject;
use dc_compiler::context::Context;
use dc_compiler::errors::BuildError;
use dc_compiler::ir::{BasicBlock, BinKind, Cfg, Inst, Namespace, Successors};
use dc_compiler::machine::{AluOp, MInst, MTerm, MachineBlock, Reg};

#[test]
fn context_recognizes_known_triples() {
    let ctx = Context::new();
    assert!(ctx.recognizes(&"x86_64".to_string()));
    assert!(ctx.recognizes(&"aarch64".to_string()));
    assert!(!ctx.recognizes(&"riscv64".to_string()));
    assert!(!ctx.recognizes(&"".to_string()));
}

#[test]
fn code_object_new_checks_context() {
    let ctx = Context::new();
    let ok = CodeObject::new(&ctx, &"a.dc".to_string(), &"x86_64".to_string());
    match ok {
        Ok(obj) => {
            assert_eq!(obj.triple, "x86_64");
            assert_eq!(obj.filename, "a.dc");
            assert!(obj.functions.is_empty());
        }
        Err(_) => panic!("a recognized triple must construct"),
    }
    let bad = CodeObject::new(&ctx, &"a.dc".to_string(), &"m68k".to_string());
    match bad {
        Err(BuildError::UnsupportedArchitecture { triple }) => assert_eq!(triple, "m68k"),
        _ => panic!("an unrecognized triple must not construct"),
    }
}

#[test]
fn code_object_records_under_identity() {
    let ctx = Context::new();
    let mut obj = CodeObject::new(&ctx, &"a.dc".to_string(), &"x86_64".to_string()).unwrap();
    assert!(!obj.contains_name(&"f".to_string()));
    obj.record_function(
        "f".to_string(),
        vec![MachineBlock { insts: vec![], term: MTerm::Ret }],
    );
    assert!(obj.contains_name(&"f".to_string()));
    assert!(!obj.contains_name(&"g".to_string()));
    assert_eq!(obj.functions.len(), 1);
    assert_eq!(obj.functions[0].name, "f");
}

#[test]
fn code_object_resolves_symbols() {
    let ctx = Context::new();
    let mut obj = CodeObject::new(&ctx, &"a.dc".to_string(), &"x86_64".to_string()).unwrap();
    obj.record_function(
        "helper".to_string(),
        vec![MachineBlock { insts: vec![], term: MTerm::Ret }],
    );
    obj.record_function(
        "main".to_string(),
        vec![MachineBlock { insts: vec![], term: MTerm::Ret }],
    );
    assert_eq!(obj.resolve(&"helper".to_string()), Some(0));
    assert_eq!(obj.resolve(&"main".to_string()), Some(1));
    assert_eq!(obj.resolve(&"absent".to_string()), None);
}

#[test]
fn frame_slots_counts_past_highest_slot() {
    let empty = dc_compiler::machine::MachineFn {
        name: "empty".to_string(),
        blocks: vec![MachineBlock { insts: vec![], term: MTerm::Ret }],
    };
    assert_eq!(empty.frame_slots(), 0);

    let cfg = Cfg {
        name: "f".to_string(),
        blocks: vec![BasicBlock {
            insts: vec![
                Inst::Const { dst: 9, value: 1 },
                Inst::Assign { dst: 2, src: 9 },
            ],
            succ: Successors::Terminal,
        }],
    };
    let ns = Namespace { cfgs: vec![cfg] };
    let ctx = Context::new();
    let obj = ClassicTarget::build(&"a.dc".to_string(), &ctx, &ns, &"x86_64".to_string())
        .unwrap();
    assert_eq!(obj.functions[0].frame_slots(), 10);
}

#[test]
fn lowering_of_straight_line_code_is_exact() {
    // v0 := 7; v1 := 5; v2 := v0 * v1
    let cfg = Cfg {
        name: "f".to_string(),
        blocks: vec![BasicBlock {
            insts: vec![
                Inst::Const { dst: 0, value: 7 },
                Inst::Const { dst: 1, value: 5 },
                Inst::BinOp { dst: 2, kind: BinKind::Mul, lhs: 0, rhs: 1 },
            ],
            succ: Successors::Terminal,
        }],
    };
    let ns = Namespace { cfgs: vec![cfg] };
    let ctx = Context::new();
    let obj = ClassicTarget::build(&"a.dc".to_string(), &ctx, &ns, &"x86_64".to_string())
        .unwrap();
    let expected = vec![
        MInst::MovImm { dst: Reg::Rax, value: 7 },
        MInst::Store { slot: 0, src: Reg::Rax },
        MInst::MovImm { dst: Reg::Rax, value: 5 },
        MInst::Store { slot: 1, src: Reg::Rax },
        MInst::Load { dst: Reg::Rax, slot: 0 },
        MInst::Load { dst: Reg::R10, slot: 1 },
        MInst::Alu { op: AluOp::Imul, dst: Reg::Rax, src: Reg::R10 },
        MInst::Store { slot: 2, src: Reg::Rax },
    ];
    assert_eq!(obj.functions[0].blocks[0].insts, expected);
    assert_eq!(obj.functions[0].blocks[0].term, MTerm::Ret);
}

#[test]
fn lowering_of_a_call_is_exact() {
    // v0 := 1; v2 := g(v0, v0) — argument loads, the call, then the store,
    // strictly in source order.
    let cfg = Cfg {
        name: "f".to_string(),
        blocks: vec![BasicBlock {
            insts: vec![
                Inst::Const { dst: 0, value: 1 },
                Inst::Call { dst: 2, callee: "g".to_string(), args: vec![0, 0] },
            ],
            succ: Successors::Terminal,
        }],
    };
    let ns = Namespace { cfgs: vec![cfg] };
    let ctx = Context::new();
    let obj = ClassicTarget::build(&"a.dc".to_string(), &ctx, &ns, &"x86_64".to_string())
        .unwrap();
    let expected = vec![
        MInst::MovImm { dst: Reg::Rax, value: 1 },
        MInst::Store { slot: 0, src: Reg::Rax },
        MInst::Load { dst: Reg::Rdi, slot: 0 },
        MInst::Load { dst: Reg::Rsi, slot: 0 },
        MInst::CallSym { callee: "g".to_string() },
        MInst::Store { slot: 2, src: Reg::Rax },
    ];
    assert_eq!(obj.functions[0].blocks[0].insts, expected);
}

#[test]
fn lowering_of_assign_and_all_binops_is_exact() {
    let kinds = vec![
        (BinKind::Add, AluOp::Add),
        (BinKind::Sub, AluOp::Sub),
        (BinKind::Mul, AluOp::Imul),
        (BinKind::And, AluOp::And),
        (BinKind::Or, AluOp::Or),
        (BinKind::Xor, AluOp::Xor),
    ];
    for (kind, op) in kinds {
        let cfg = Cfg {
            name: "f".to_string(),
            blocks: vec![BasicBlock {
                insts: vec![
                    Inst::Assign { dst: 1, src: 0 },
                    Inst::BinOp { dst: 2, kind, lhs: 0, rhs: 1 },
                ],
                succ: Successors::Terminal,
            }],
        };
        let ns = Namespace { cfgs: vec![cfg] };
        let ctx = Context::new();
        let obj = ClassicTarget::build(&"a.dc".to_string(), &ctx, &ns, &"x86_64".to_string())
            .unwrap();
        let expected = vec![
            MInst::Load { dst: Reg::Rax, slot: 0 },
            MInst::Store { slot: 1, src: Reg::Rax },
            MInst::Load { dst: Reg::Rax, slot: 0 },
            MInst::Load { dst: Reg::R10, slot: 1 },
            MInst::Alu { op, dst: Reg::Rax, src: Reg::R10 },
            MInst::Store { slot: 2, src: Reg::Rax },
        ];
        assert_eq!(obj.functions[0].blocks[0].insts, expected);
    }
}

#[test]
fn six_call_arguments_use_all_argument_registers() {
    let cfg = Cfg {
        name: "f".to_string(),
        blocks: vec![BasicBlock {
            insts: vec![Inst::Call {
                dst: 6,
                callee: "g".to_string(),
                args: vec![0, 1, 2, 3, 4, 5],
            }],
            succ: Successors::Terminal,
        }],
    };
    let ns = Namespace { cfgs: vec![cfg] };
    let ctx = Context::new();
    let obj = ClassicTarget::build(&"a.dc".to_string(), &ctx, &ns, &"x86_64".to_string())
        .unwrap();
    let expected = vec![
        MInst::Load { dst: Reg::Rdi, slot: 0 },
        MInst::Load { dst: Reg::Rsi, slot: 1 },
        MInst::Load { dst: Reg::Rdx, slot: 2 },
        MInst::Load { dst: Reg::Rcx, slot: 3 },
        MInst::Load { dst: Reg::R8, slot: 4 },
        MInst::Load { dst: Reg::R9, slot: 5 },
        MInst::CallSym { callee: "g".to_string() },
        MInst::Store { slot: 6, src: Reg::Rax },
    ];
    assert_eq!(obj.functions[0].blocks[0].insts, expected);
}
