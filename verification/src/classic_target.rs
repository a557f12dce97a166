//! The classic general-purpose backend: one concrete target, emitting for
//! the "x86_64" triple.
//!
//! Instruction selection is slot-based: virtual register `n` of the
//! intermediate representation lives in stack slot `n`. Each instruction is
//! lowered to a short fixed machine sequence working through the scratch
//! registers `Rax` and `R10`; call arguments travel in the six argument
//! registers of the calling convention. Machine blocks mirror the source
//! blocks one for one, so every control-flow edge is preserved by index.

use vstd::prelude::*;
use vstd::string::StringExecFns;

use crate::base_target::{
    BaseTarget, build_spec, machine_preserves_cfg, term_matches_succ,
};
use crate::code_object::{CodeObject, CodeObjectModel};
use crate::context::Context;
use crate::errors::{
    BuildError, BuildErrorModel, LowerReason, LoweringError, LoweringErrorModel, ReasonModel,
};
use crate::ir::{BasicBlock, BinKind, BlockModel, Cfg, CfgModel, Inst, InstModel, Namespace,
    Successors, ns_wf};
use crate::machine::{
    AluOp, MInst, MInstModel, MTerm, MachineBlock, MachineBlockModel, MachineFnModel, Reg,
};

verus! {

/// How many argument registers the calling convention provides.
pub const MAX_CALL_ARGS: usize = 6;

/// The architecture triple the classic backend emits for.
pub open spec fn classic_triple() -> Seq<char> {
    "x86_64"@
}

/// The register carrying the `k`-th call argument.
pub open spec fn arg_reg(k: int) -> Reg {
    if k == 0 {
        Reg::Rdi
    } else if k == 1 {
        Reg::Rsi
    } else if k == 2 {
        Reg::Rdx
    } else if k == 3 {
        Reg::Rcx
    } else if k == 4 {
        Reg::R8
    } else {
        Reg::R9
    }
}

/// The machine operation selected for an intermediate-representation
/// binary operation.
pub open spec fn alu_of(kind: BinKind) -> AluOp {
    match kind {
        BinKind::Add => AluOp::Add,
        BinKind::Sub => AluOp::Sub,
        BinKind::Mul => AluOp::Imul,
        BinKind::And => AluOp::And,
        BinKind::Or => AluOp::Or,
        BinKind::Xor => AluOp::Xor,
    }
}

/// Whether the classic backend has a machine mapping for an instruction:
/// it knows no intrinsics, and a call must fit the argument registers.
pub open spec fn inst_supported(i: InstModel) -> bool {
    match i {
        InstModel::Intrinsic { .. } => false,
        InstModel::Call { args, .. } => args.len() <= MAX_CALL_ARGS,
        _ => true,
    }
}

/// The loads placing every call argument in its argument register.
pub open spec fn arg_loads(args: Seq<u32>) -> Seq<MInstModel> {
    Seq::new(args.len(), |k: int| MInstModel::Load { dst: arg_reg(k), slot: args[k] })
}

/// The machine sequence selected for one supported instruction.
pub open spec fn lower_inst_spec(i: InstModel) -> Seq<MInstModel> {
    match i {
        InstModel::Const { dst, value } => seq![
            MInstModel::MovImm { dst: Reg::Rax, value },
            MInstModel::Store { slot: dst, src: Reg::Rax },
        ],
        InstModel::Assign { dst, src } => seq![
            MInstModel::Load { dst: Reg::Rax, slot: src },
            MInstModel::Store { slot: dst, src: Reg::Rax },
        ],
        InstModel::BinOp { dst, kind, lhs, rhs } => seq![
            MInstModel::Load { dst: Reg::Rax, slot: lhs },
            MInstModel::Load { dst: Reg::R10, slot: rhs },
            MInstModel::Alu { op: alu_of(kind), dst: Reg::Rax, src: Reg::R10 },
            MInstModel::Store { slot: dst, src: Reg::Rax },
        ],
        InstModel::Call { dst, callee, args } => arg_loads(args) + seq![
            MInstModel::CallSym { callee },
            MInstModel::Store { slot: dst, src: Reg::Rax },
        ],
        InstModel::Intrinsic { .. } => Seq::<MInstModel>::empty(),
    }
}

/// The machine sequence selected for a whole instruction list, in order.
pub open spec fn lower_insts_spec(insts: Seq<InstModel>) -> Seq<MInstModel>
    decreases insts.len(),
{
    if insts.len() == 0 {
        Seq::<MInstModel>::empty()
    } else {
        lower_inst_spec(insts[0]) + lower_insts_spec(insts.subrange(1, insts.len() as int))
    }
}

/// The load of the branch condition a conditional block ends with.
pub open spec fn branch_prologue(s: Successors) -> Seq<MInstModel> {
    match s {
        Successors::Branch { cond, .. } => seq![
            MInstModel::Load { dst: Reg::Rax, slot: cond },
        ],
        _ => Seq::<MInstModel>::empty(),
    }
}

/// The machine transfer realizing a block's successor edges.
pub open spec fn term_of(s: Successors) -> MTerm {
    match s {
        Successors::Terminal => MTerm::Ret,
        Successors::Jump { target } => MTerm::Jmp { target },
        Successors::Branch { if_true, if_false, .. } => MTerm::JnzElse { if_true, if_false },
    }
}

/// The machine block emitted for one basic block.
pub open spec fn lower_block_spec(b: BlockModel) -> MachineBlockModel {
    MachineBlockModel {
        insts: lower_insts_spec(b.insts) + branch_prologue(b.succ),
        term: term_of(b.succ),
    }
}

/// Every instruction of the block has a machine mapping.
pub open spec fn block_supported(b: BlockModel) -> bool {
    forall|k: int| 0 <= k < b.insts.len() ==> inst_supported(#[trigger] b.insts[k])
}

/// Every block of the graph can be lowered.
pub open spec fn cfg_supported(c: CfgModel) -> bool {
    forall|k: int| 0 <= k < c.blocks.len() ==> block_supported(#[trigger] c.blocks[k])
}

/// The machine function emitted for a whole control-flow graph.
pub open spec fn lower_cfg_spec(c: CfgModel) -> MachineFnModel {
    MachineFnModel {
        name: c.name,
        blocks: c.blocks.map_values(|b: BlockModel| lower_block_spec(b)),
    }
}

/// The reason reported for an unsupported instruction.
pub open spec fn inst_failure(i: InstModel) -> ReasonModel {
    match i {
        InstModel::Intrinsic { name, .. } => ReasonModel::UnknownIntrinsic { name },
        InstModel::Call { callee, .. } => ReasonModel::TooManyCallArgs { callee },
        _ => arbitrary(),
    }
}

/// The reason of the first unsupported instruction in a list.
pub open spec fn first_unsupported_in_insts(insts: Seq<InstModel>) -> ReasonModel
    decreases insts.len(),
{
    if insts.len() == 0 {
        arbitrary()
    } else if !inst_supported(insts[0]) {
        inst_failure(insts[0])
    } else {
        first_unsupported_in_insts(insts.subrange(1, insts.len() as int))
    }
}

/// The reason of the first unsupported instruction in a block list, in
/// block order.
pub open spec fn first_unsupported_in_blocks(bs: Seq<BlockModel>) -> ReasonModel
    decreases bs.len(),
{
    if bs.len() == 0 {
        arbitrary()
    } else if !block_supported(bs[0]) {
        first_unsupported_in_insts(bs[0].insts)
    } else {
        first_unsupported_in_blocks(bs.subrange(1, bs.len() as int))
    }
}

/// The failure the classic backend reports for a graph it cannot lower.
pub open spec fn classic_failure(c: CfgModel) -> LoweringErrorModel {
    LoweringErrorModel { function: c.name, reason: first_unsupported_in_blocks(c.blocks) }
}

proof fn lemma_first_unsupported_insts(insts: Seq<InstModel>, i: int)
    requires
        0 <= i < insts.len(),
        !inst_supported(insts[i]),
        forall|k: int| 0 <= k < i ==> inst_supported(#[trigger] insts[k]),
    ensures
        first_unsupported_in_insts(insts) == inst_failure(insts[i]),
    decreases i,
{
    if i == 0 {
    } else {
        let rest = insts.subrange(1, insts.len() as int);
        assert(inst_supported(insts[0]));
        assert(rest[i - 1] == insts[i]);
        lemma_first_unsupported_insts(rest, i - 1);
    }
}

proof fn lemma_first_unsupported_blocks(bs: Seq<BlockModel>, i: int)
    requires
        0 <= i < bs.len(),
        !block_supported(bs[i]),
        forall|k: int| 0 <= k < i ==> block_supported(#[trigger] bs[k]),
    ensures
        first_unsupported_in_blocks(bs) == first_unsupported_in_insts(bs[i].insts),
    decreases i,
{
    if i == 0 {
    } else {
        let rest = bs.subrange(1, bs.len() as int);
        assert(block_supported(bs[0]));
        assert(rest[i - 1] == bs[i]);
        lemma_first_unsupported_blocks(rest, i - 1);
    }
}

proof fn lemma_lower_insts_push(s: Seq<InstModel>, x: InstModel)
    ensures
        lower_insts_spec(s.push(x)) =~= lower_insts_spec(s) + lower_inst_spec(x),
    decreases s.len(),
{
    let t = s.push(x);
    if s.len() == 0 {
        assert(t[0] == x);
        assert(t.subrange(1, t.len() as int) =~= Seq::<InstModel>::empty());
        assert(lower_insts_spec(Seq::<InstModel>::empty()) == Seq::<MInstModel>::empty());
        assert(lower_insts_spec(t) == lower_inst_spec(x) + lower_insts_spec(
            t.subrange(1, t.len() as int),
        ));
        assert(lower_insts_spec(s) == Seq::<MInstModel>::empty());
    } else {
        let rest = s.subrange(1, s.len() as int);
        assert(t[0] == s[0]);
        assert(t.subrange(1, t.len() as int) =~= rest.push(x));
        lemma_lower_insts_push(rest, x);
        assert(lower_insts_spec(t) == lower_inst_spec(s[0]) + (lower_insts_spec(rest)
            + lower_inst_spec(x)));
        assert(lower_insts_spec(s) == lower_inst_spec(s[0]) + lower_insts_spec(rest));
    }
}

/// The classic backend: a stateless instruction-selection strategy.
pub struct ClassicTarget {}

impl ClassicTarget {
    /// The register the calling convention assigns to argument `k`.
    fn arg_reg_at(k: usize) -> (r: Reg)
        requires
            k < MAX_CALL_ARGS,
        ensures
            r == arg_reg(k as int),
    {
        if k == 0 {
            Reg::Rdi
        } else if k == 1 {
            Reg::Rsi
        } else if k == 2 {
            Reg::Rdx
        } else if k == 3 {
            Reg::Rcx
        } else if k == 4 {
            Reg::R8
        } else {
            Reg::R9
        }
    }

    /// Selects the machine sequence for one instruction, or reports the
    /// construct that has no mapping.
    fn lower_inst(inst: &Inst) -> (r: Result<Vec<MInst>, LowerReason>)
        ensures
            inst_supported(inst@) ==> (r matches Ok(v) && v@.map_values(|m: MInst| m@)
                == lower_inst_spec(inst@)),
            !inst_supported(inst@) ==> (r matches Err(re) && re@ == inst_failure(inst@)),
    {
        match inst {
            Inst::Const { dst, value } => {
                let mut v: Vec<MInst> = Vec::new();
                v.push(MInst::MovImm { dst: Reg::Rax, value: *value });
                v.push(MInst::Store { slot: *dst, src: Reg::Rax });
                proof {
                    assert(v@.map_values(|m: MInst| m@) =~= lower_inst_spec(inst@));
                }
                Ok(v)
            },
            Inst::Assign { dst, src } => {
                let mut v: Vec<MInst> = Vec::new();
                v.push(MInst::Load { dst: Reg::Rax, slot: *src });
                v.push(MInst::Store { slot: *dst, src: Reg::Rax });
                proof {
                    assert(v@.map_values(|m: MInst| m@) =~= lower_inst_spec(inst@));
                }
                Ok(v)
            },
            Inst::BinOp { dst, kind, lhs, rhs } => {
                let op = match kind {
                    BinKind::Add => AluOp::Add,
                    BinKind::Sub => AluOp::Sub,
                    BinKind::Mul => AluOp::Imul,
                    BinKind::And => AluOp::And,
                    BinKind::Or => AluOp::Or,
                    BinKind::Xor => AluOp::Xor,
                };
                let mut v: Vec<MInst> = Vec::new();
                v.push(MInst::Load { dst: Reg::Rax, slot: *lhs });
                v.push(MInst::Load { dst: Reg::R10, slot: *rhs });
                v.push(MInst::Alu { op, dst: Reg::Rax, src: Reg::R10 });
                v.push(MInst::Store { slot: *dst, src: Reg::Rax });
                proof {
                    assert(v@.map_values(|m: MInst| m@) =~= lower_inst_spec(inst@));
                }
                Ok(v)
            },
            Inst::Call { dst, callee, args } => {
                if args.len() > MAX_CALL_ARGS {
                    Err(LowerReason::TooManyCallArgs { callee: callee.clone() })
                } else {
                    let mut v: Vec<MInst> = Vec::new();
                    let mut k: usize = 0;
                    while k < args.len()
                        invariant
                            k <= args.len(),
                            args.len() <= MAX_CALL_ARGS,
                            v@.map_values(|m: MInst| m@) =~= arg_loads(args@).subrange(
                                0,
                                k as int,
                            ),
                        decreases args.len() - k,
                    {
                        let ghost prefix = v@.map_values(|m: MInst| m@);
                        v.push(MInst::Load { dst: Self::arg_reg_at(k), slot: args[k] });
                        proof {
                            assert(v@.map_values(|m: MInst| m@) =~= prefix.push(
                                MInstModel::Load {
                                    dst: arg_reg(k as int),
                                    slot: args@[k as int],
                                },
                            ));
                            assert(v@.map_values(|m: MInst| m@) =~= arg_loads(args@).subrange(
                                0,
                                k + 1,
                            ));
                        }
                        k += 1;
                    }
                    let ghost loads = v@.map_values(|m: MInst| m@);
                    v.push(MInst::CallSym { callee: callee.clone() });
                    v.push(MInst::Store { slot: *dst, src: Reg::Rax });
                    proof {
                        assert(loads =~= arg_loads(args@));
                        assert(v@.map_values(|m: MInst| m@) =~= lower_inst_spec(inst@));
                    }
                    Ok(v)
                }
            },
            Inst::Intrinsic { name, .. } => {
                Err(LowerReason::UnknownIntrinsic { name: name.clone() })
            },
        }
    }

    /// Lowers one basic block: selects machine code for every instruction
    /// in block order, appends the branch-condition load where the block
    /// branches, and closes the block with the transfer its edges demand.
    fn lower_block(b: &BasicBlock) -> (r: Result<MachineBlock, LowerReason>)
        ensures
            block_supported(b@) ==> (r matches Ok(mb) && mb@ == lower_block_spec(b@)),
            !block_supported(b@) ==> (r matches Err(re) && re@ == first_unsupported_in_insts(
                b@.insts,
            )),
    {
        let mut insts: Vec<MInst> = Vec::new();
        let mut i: usize = 0;
        while i < b.insts.len()
            invariant
                i <= b.insts.len(),
                b.insts@.len() == b@.insts.len(),
                forall|k: int| 0 <= k < i ==> inst_supported(#[trigger] b@.insts[k]),
                insts@.map_values(|m: MInst| m@) =~= lower_insts_spec(
                    b@.insts.subrange(0, i as int),
                ),
            decreases b.insts.len() - i,
        {
            let inst = &b.insts[i];
            proof {
                assert(b@.insts[i as int] == inst@);
            }
            match Self::lower_inst(inst) {
                Ok(mut v) => {
                    let ghost prefix = insts@.map_values(|m: MInst| m@);
                    let ghost piece = v@.map_values(|m: MInst| m@);
                    insts.append(&mut v);
                    proof {
                        assert(insts@.map_values(|m: MInst| m@) =~= prefix + piece);
                        assert(b@.insts.subrange(0, i + 1) =~= b@.insts.subrange(
                            0,
                            i as int,
                        ).push(b@.insts[i as int]));
                        lemma_lower_insts_push(b@.insts.subrange(0, i as int), b@.insts[i as int]);
                    }
                },
                Err(re) => {
                    proof {
                        lemma_first_unsupported_insts(b@.insts, i as int);
                    }
                    return Err(re);
                },
            }
            i += 1;
        }
        proof {
            assert(b@.insts.subrange(0, b@.insts.len() as int) =~= b@.insts);
        }
        let term: MTerm = match b.succ {
            Successors::Terminal => MTerm::Ret,
            Successors::Jump { target } => MTerm::Jmp { target },
            Successors::Branch { cond, if_true, if_false } => {
                insts.push(MInst::Load { dst: Reg::Rax, slot: cond });
                MTerm::JnzElse { if_true, if_false }
            },
        };
        let mb = MachineBlock { insts, term };
        proof {
            assert(mb@.insts =~= lower_insts_spec(b@.insts) + branch_prologue(b@.succ));
            assert(mb@ =~= lower_block_spec(b@));
        }
        Ok(mb)
    }

    /// Builds the code object for a whole namespace on the classic backend:
    /// constructs an empty code object tagged with `triple` and emits every
    /// control-flow graph of `ns` in namespace order. Returns the completed
    /// code object, or the first failure with no partial artifact exposed.
    pub fn build(filename: &String, context: &Context, ns: &Namespace, triple: &String) -> (r:
        Result<CodeObject, BuildError>)
        requires
            ns_wf(ns@),
        ensures
            (match (r, classic_build_spec(context.recognized(), filename@, ns@, triple@)) {
                (Ok(obj), Ok(m)) => obj@ == m && obj@.wf(),
                (Err(e), Err(m)) => e@ == m,
                _ => false,
            }),
    {
        let target = ClassicTarget {};
        crate::base_target::build_code_object(&target, filename, context, ns, triple)
    }
}

/// What a classic-backend build yields, as a function of the context's
/// recognized triples, the diagnostics filename, the namespace and the
/// requested triple.
pub open spec fn classic_build_spec(
    recognized: Seq<Seq<char>>,
    filename: Seq<char>,
    cfgs: Seq<CfgModel>,
    triple: Seq<char>,
) -> Result<CodeObjectModel, BuildErrorModel> {
    build_spec(ClassicTarget {  }, recognized, filename, cfgs, triple)
}

impl BaseTarget for ClassicTarget {
    open spec fn triple_spec(&self) -> Seq<char> {
        classic_triple()
    }

    open spec fn lowers(&self, cfg: CfgModel) -> bool {
        cfg_supported(cfg)
    }

    open spec fn lowered(&self, cfg: CfgModel) -> MachineFnModel {
        lower_cfg_spec(cfg)
    }

    open spec fn lower_failure(&self, cfg: CfgModel) -> LoweringErrorModel {
        classic_failure(cfg)
    }

    proof fn lowered_wf(&self, cfg: CfgModel) {
        if cfg_supported(cfg) {
            lemma_classic_preserves_control_flow(cfg);
        }
    }

    fn triple(&self) -> (s: String) {
        String::from_str("x86_64")
    }

    fn emit_function(&self, obj: &mut CodeObject, cfg: &Cfg) -> (r: Result<(), LoweringError>) {
        let mut blocks: Vec<MachineBlock> = Vec::new();
        let mut i: usize = 0;
        while i < cfg.blocks.len()
            invariant
                i <= cfg.blocks.len(),
                cfg.blocks@.len() == cfg@.blocks.len(),
                forall|k: int| 0 <= k < i ==> block_supported(#[trigger] cfg@.blocks[k]),
                blocks@.map_values(|b: MachineBlock| b@) =~= cfg@.blocks.subrange(
                    0,
                    i as int,
                ).map_values(|b: BlockModel| lower_block_spec(b)),
            decreases cfg.blocks.len() - i,
        {
            let block = &cfg.blocks[i];
            proof {
                assert(cfg@.blocks[i as int] == block@);
            }
            match Self::lower_block(block) {
                Ok(mb) => {
                    let ghost prefix = blocks@.map_values(|b: MachineBlock| b@);
                    let ghost piece = mb@;
                    blocks.push(mb);
                    proof {
                        assert(piece == lower_block_spec(cfg@.blocks[i as int]));
                        assert(blocks@.map_values(|b: MachineBlock| b@) =~= prefix.push(piece));
                        assert forall|k: int| 0 <= k < i + 1 implies cfg@.blocks.subrange(
                            0,
                            i + 1,
                        ).map_values(|b: BlockModel| lower_block_spec(b))[k] == prefix.push(
                            piece,
                        )[k] by {
                            assert(cfg@.blocks.subrange(0, i + 1)[k] == cfg@.blocks[k]);
                            if k < i {
                                assert(prefix[k] == cfg@.blocks.subrange(0, i as int).map_values(
                                    |b: BlockModel| lower_block_spec(b),
                                )[k]);
                                assert(cfg@.blocks.subrange(0, i as int)[k] == cfg@.blocks[k]);
                            }
                        }
                        assert(blocks@.map_values(|b: MachineBlock| b@) =~= cfg@.blocks.subrange(
                            0,
                            i + 1,
                        ).map_values(|b: BlockModel| lower_block_spec(b)));
                    }
                },
                Err(re) => {
                    proof {
                        lemma_first_unsupported_blocks(cfg@.blocks, i as int);
                        assert(!cfg_supported(cfg@));
                    }
                    return Err(LoweringError { function: cfg.name.clone(), reason: re });
                },
            }
            i += 1;
        }
        proof {
            assert(cfg_supported(cfg@));
            assert(cfg@.blocks.subrange(0, cfg@.blocks.len() as int) =~= cfg@.blocks);
        }
        let ghost pre = obj@;
        obj.record_function(cfg.name.clone(), blocks);
        proof {
            assert(obj@ =~= (CodeObjectModel {
                triple: pre.triple,
                filename: pre.filename,
                functions: pre.functions.push(lower_cfg_spec(cfg@)),
            }));
        }
        Ok(())
    }
}

/// Where the machine code selected for the instruction at position `k`
/// begins inside the lowered block: the lowered length of the block's
/// prefix before `k`.
pub open spec fn lowered_offset(insts: Seq<InstModel>, k: int) -> int {
    lower_insts_spec(insts.subrange(0, k)).len() as int
}

proof fn lemma_lower_insts_split(s: Seq<InstModel>, k: int)
    requires
        0 <= k <= s.len(),
    ensures
        lower_insts_spec(s) == lower_insts_spec(s.subrange(0, k)) + lower_insts_spec(
            s.subrange(k, s.len() as int),
        ),
    decreases k,
{
    if k == 0 {
        assert(s.subrange(0, 0) =~= Seq::<InstModel>::empty());
        assert(s.subrange(0, s.len() as int) =~= s);
        assert(lower_insts_spec(Seq::<InstModel>::empty()) == Seq::<MInstModel>::empty());
        assert(lower_insts_spec(s.subrange(0, 0)) + lower_insts_spec(
            s.subrange(0, s.len() as int),
        ) =~= lower_insts_spec(s));
    } else {
        let rest = s.subrange(1, s.len() as int);
        lemma_lower_insts_split(rest, k - 1);
        let a = s.subrange(0, k);
        assert(a[0] == s[0]);
        assert(a.subrange(1, k) =~= rest.subrange(0, k - 1));
        assert(rest.subrange(k - 1, rest.len() as int) =~= s.subrange(k, s.len() as int));
        assert(lower_insts_spec(s) == lower_inst_spec(s[0]) + lower_insts_spec(rest));
        assert(lower_insts_spec(a) == lower_inst_spec(s[0]) + lower_insts_spec(
            a.subrange(1, k),
        ));
        assert(lower_insts_spec(s) =~= lower_insts_spec(a) + lower_insts_spec(
            s.subrange(k, s.len() as int),
        ));
    }
}

proof fn lemma_offset_step(s: Seq<InstModel>, k: int)
    requires
        0 <= k < s.len(),
    ensures
        lowered_offset(s, k + 1) == lowered_offset(s, k) + lower_inst_spec(s[k]).len(),
{
    assert(s.subrange(0, k + 1) =~= s.subrange(0, k).push(s[k]));
    lemma_lower_insts_push(s.subrange(0, k), s[k]);
}

proof fn lemma_offset_mono(s: Seq<InstModel>, a: int, b: int)
    requires
        0 <= a <= b <= s.len(),
    ensures
        lowered_offset(s, a) <= lowered_offset(s, b),
    decreases b - a,
{
    if a < b {
        lemma_offset_step(s, b - 1);
        lemma_offset_mono(s, a, b - 1);
    }
}

proof fn lemma_slice_at(s: Seq<InstModel>, k: int)
    requires
        0 <= k < s.len(),
    ensures
        lowered_offset(s, k) + lower_inst_spec(s[k]).len() <= lower_insts_spec(s).len(),
        lower_insts_spec(s).subrange(
            lowered_offset(s, k),
            lowered_offset(s, k) + lower_inst_spec(s[k]).len() as int,
        ) == lower_inst_spec(s[k]),
{
    lemma_lower_insts_split(s, k);
    let tail = s.subrange(k, s.len() as int);
    assert(tail[0] == s[k]);
    assert(lower_insts_spec(tail) == lower_inst_spec(s[k]) + lower_insts_spec(
        tail.subrange(1, tail.len() as int),
    ));
    let pre = lower_insts_spec(s.subrange(0, k));
    assert(lower_insts_spec(s).subrange(
        pre.len() as int,
        pre.len() as int + lower_inst_spec(s[k]).len() as int,
    ) =~= lower_inst_spec(s[k]));
}

/// Order preservation inside a basic block: for an instruction at position
/// `i` before an instruction at position `j` of the same block, the machine
/// instructions derived from the one at `i` stand as one contiguous range
/// that lies wholly before the contiguous range derived from the one at
/// `j`; no lowering reorders them.
pub proof fn lemma_block_order_preserved(insts: Seq<InstModel>, i: int, j: int)
    requires
        0 <= i < j < insts.len(),
    ensures
        lowered_offset(insts, i) + lower_inst_spec(insts[i]).len() <= lowered_offset(insts, j),
        lowered_offset(insts, j) + lower_inst_spec(insts[j]).len() <= lower_insts_spec(
            insts,
        ).len(),
        lower_insts_spec(insts).subrange(
            lowered_offset(insts, i),
            lowered_offset(insts, i) + lower_inst_spec(insts[i]).len() as int,
        ) == lower_inst_spec(insts[i]),
        lower_insts_spec(insts).subrange(
            lowered_offset(insts, j),
            lowered_offset(insts, j) + lower_inst_spec(insts[j]).len() as int,
        ) == lower_inst_spec(insts[j]),
{
    lemma_slice_at(insts, i);
    lemma_slice_at(insts, j);
    lemma_offset_step(insts, i);
    lemma_offset_mono(insts, i + 1, j);
}

/// Control-flow preservation: the machine function the classic backend
/// selects for a control-flow graph has one machine block per source block,
/// and each transfers control along exactly the source block's edges, under
/// the same always/true/false conditions.
pub proof fn lemma_classic_preserves_control_flow(cfg: CfgModel)
    ensures
        machine_preserves_cfg(lower_cfg_spec(cfg), cfg),
{
    let mf = lower_cfg_spec(cfg);
    assert forall|i: int| 0 <= i < cfg.blocks.len() implies term_matches_succ(
        #[trigger] mf.blocks[i].term,
        cfg.blocks[i].succ,
    ) by {
        assert(mf.blocks[i] == lower_block_spec(cfg.blocks[i]));
    }
}

} // verus!
