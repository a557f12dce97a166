//! Architecture-neutral intermediate representation: per-function
//! control-flow graphs of basic blocks, and the namespace that collects the
//! control-flow graphs of one compilation unit.
//!
//! Values are virtual registers, named by `u32` indices. Each instruction
//! writes one virtual register. A basic block carries an ordered instruction
//! sequence and its successor edges; a block with no successors terminates
//! the function.

use vstd::prelude::*;

verus! {

/// Architecture-neutral binary operations on virtual registers.
#[derive(Clone, Copy, PartialEq, Eq, Structural, Debug)]
pub enum BinKind {
    Add,
    Sub,
    Mul,
    And,
    Or,
    Xor,
}

/// One intermediate-representation instruction. `dst`, `src`, operand and
/// argument indices name virtual registers.
#[derive(Clone, PartialEq, Eq, Debug)]
pub enum Inst {
    /// Put an integer constant into `dst`.
    Const { dst: u32, value: u64 },
    /// Copy `src` into `dst`.
    Assign { dst: u32, src: u32 },
    /// Apply `kind` to `lhs` and `rhs`, writing `dst`.
    BinOp { dst: u32, kind: BinKind, lhs: u32, rhs: u32 },
    /// Call the function named `callee` with the given argument registers,
    /// writing its return value to `dst`.
    Call { dst: u32, callee: String, args: Vec<u32> },
    /// Invoke a named intrinsic operation; a target lowers the intrinsics it
    /// knows and rejects the rest.
    Intrinsic { dst: u32, name: String, args: Vec<u32> },
}

/// The successor edges of a basic block: none for a terminating block, an
/// unconditional edge, or a conditional-true/false pair switched on a
/// virtual register.
#[derive(Clone, Copy, PartialEq, Eq, Structural, Debug)]
pub enum Successors {
    /// No successor: the block returns from the function.
    Terminal,
    /// Unconditional transfer to the block at index `target`.
    Jump { target: usize },
    /// Transfer to `if_true` when the register `cond` is non-zero, else to
    /// `if_false`.
    Branch { cond: u32, if_true: usize, if_false: usize },
}

/// A basic block: an ordered instruction sequence plus successor edges.
#[derive(Clone, PartialEq, Eq, Debug)]
pub struct BasicBlock {
    pub insts: Vec<Inst>,
    pub succ: Successors,
}

/// A per-function control-flow graph. The entry block is `blocks[0]`; edges
/// name blocks by their index in `blocks`.
#[derive(Clone, PartialEq, Eq, Debug)]
pub struct Cfg {
    pub name: String,
    pub blocks: Vec<BasicBlock>,
}

/// An ordered collection of control-flow graphs: one compilation unit as
/// handed over by the front end. Order is significant; functions are emitted
/// in namespace order.
#[derive(Clone, PartialEq, Eq, Debug)]
pub struct Namespace {
    pub cfgs: Vec<Cfg>,
}

/// Mathematical model of an instruction: names and argument lists become
/// sequences.
pub enum InstModel {
    Const { dst: u32, value: u64 },
    Assign { dst: u32, src: u32 },
    BinOp { dst: u32, kind: BinKind, lhs: u32, rhs: u32 },
    Call { dst: u32, callee: Seq<char>, args: Seq<u32> },
    Intrinsic { dst: u32, name: Seq<char>, args: Seq<u32> },
}

/// Mathematical model of a basic block.
#[verifier::ext_equal]
pub struct BlockModel {
    pub insts: Seq<InstModel>,
    pub succ: Successors,
}

/// Mathematical model of a control-flow graph.
#[verifier::ext_equal]
pub struct CfgModel {
    pub name: Seq<char>,
    pub blocks: Seq<BlockModel>,
}

impl View for Inst {
    type V = InstModel;

    open spec fn view(&self) -> InstModel {
        match self {
            Inst::Const { dst, value } => InstModel::Const { dst: *dst, value: *value },
            Inst::Assign { dst, src } => InstModel::Assign { dst: *dst, src: *src },
            Inst::BinOp { dst, kind, lhs, rhs } => (InstModel::BinOp {
                dst: *dst,
                kind: *kind,
                lhs: *lhs,
                rhs: *rhs,
            }),
            Inst::Call { dst, callee, args } => (InstModel::Call {
                dst: *dst,
                callee: callee@,
                args: args@,
            }),
            Inst::Intrinsic { dst, name, args } => (InstModel::Intrinsic {
                dst: *dst,
                name: name@,
                args: args@,
            }),
        }
    }
}

impl View for BasicBlock {
    type V = BlockModel;

    open spec fn view(&self) -> BlockModel {
        BlockModel { insts: self.insts@.map_values(|i: Inst| i@), succ: self.succ }
    }
}

impl View for Cfg {
    type V = CfgModel;

    open spec fn view(&self) -> CfgModel {
        CfgModel { name: self.name@, blocks: self.blocks@.map_values(|b: BasicBlock| b@) }
    }
}

impl View for Namespace {
    type V = Seq<CfgModel>;

    open spec fn view(&self) -> Seq<CfgModel> {
        self.cfgs@.map_values(|c: Cfg| c@)
    }
}

impl Successors {
    /// All named successor blocks lie below `n_blocks`.
    pub open spec fn targets_in(self, n_blocks: nat) -> bool {
        match self {
            Successors::Terminal => true,
            Successors::Jump { target } => target < n_blocks,
            Successors::Branch { if_true, if_false, .. } => (if_true < n_blocks
                && if_false < n_blocks),
        }
    }
}

impl BlockModel {
    /// The block's edges stay inside a function of `n_blocks` blocks.
    pub open spec fn wf(self, n_blocks: nat) -> bool {
        self.succ.targets_in(n_blocks)
    }
}

impl CfgModel {
    /// Structural validity of a control-flow graph: it has a designated
    /// entry block (`blocks[0]`), and every edge names an existing block.
    pub open spec fn wf(self) -> bool {
        &&& self.blocks.len() >= 1
        &&& forall|i: int|
            0 <= i < self.blocks.len() ==> #[trigger] self.blocks[i].wf(self.blocks.len())
    }
}

/// Structural validity of a whole namespace: every control-flow graph in it
/// is well formed.
pub open spec fn ns_wf(cfgs: Seq<CfgModel>) -> bool {
    forall|i: int| 0 <= i < cfgs.len() ==> (#[trigger] cfgs[i]).wf()
}

} // verus!
