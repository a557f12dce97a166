//! Target-level machine representation emitted by instruction selection.
//!
//! The classic backend spills every virtual register to a dedicated stack
//! slot (virtual register `n` lives in slot `n`) and works through a small
//! set of physical registers; machine blocks mirror the source blocks, so
//! control transfers name machine blocks by the same indices the
//! control-flow graph uses.

use vstd::prelude::*;

verus! {

/// Physical registers of the classic general-purpose backend.
#[derive(Clone, Copy, PartialEq, Eq, Structural, Debug)]
pub enum Reg {
    /// Return value and first scratch register.
    Rax,
    Rcx,
    Rdx,
    Rdi,
    Rsi,
    R8,
    R9,
    /// Second scratch register.
    R10,
}

/// Machine-level arithmetic/logic operations.
#[derive(Clone, Copy, PartialEq, Eq, Structural, Debug)]
pub enum AluOp {
    Add,
    Sub,
    Imul,
    And,
    Or,
    Xor,
}

/// One machine instruction. `slot` indices name stack slots of the current
/// frame.
#[derive(Clone, PartialEq, Eq, Debug)]
pub enum MInst {
    /// Move an immediate into a register.
    MovImm { dst: Reg, value: u64 },
    /// Load a stack slot into a register.
    Load { dst: Reg, slot: u32 },
    /// Store a register into a stack slot.
    Store { slot: u32, src: Reg },
    /// `dst := dst op src`.
    Alu { op: AluOp, dst: Reg, src: Reg },
    /// Call the function recorded under `callee`; its return value is left
    /// in `Rax`.
    CallSym { callee: String },
}

/// A machine block's closing control transfer.
#[derive(Clone, Copy, PartialEq, Eq, Structural, Debug)]
pub enum MTerm {
    /// Return from the function.
    Ret,
    /// Unconditional jump to the machine block at `target`.
    Jmp { target: usize },
    /// Jump to `if_true` when `Rax` is non-zero, else to `if_false`.
    JnzElse { if_true: usize, if_false: usize },
}

/// One emitted machine block: a straight-line instruction sequence closed by
/// a control transfer.
#[derive(Clone, PartialEq, Eq, Debug)]
pub struct MachineBlock {
    pub insts: Vec<MInst>,
    pub term: MTerm,
}

/// The emitted machine-level representation of one function.
#[derive(Clone, PartialEq, Eq, Debug)]
pub struct MachineFn {
    pub name: String,
    pub blocks: Vec<MachineBlock>,
}

/// Mathematical model of a machine instruction.
pub enum MInstModel {
    MovImm { dst: Reg, value: u64 },
    Load { dst: Reg, slot: u32 },
    Store { slot: u32, src: Reg },
    Alu { op: AluOp, dst: Reg, src: Reg },
    CallSym { callee: Seq<char> },
}

/// Mathematical model of a machine block.
#[verifier::ext_equal]
pub struct MachineBlockModel {
    pub insts: Seq<MInstModel>,
    pub term: MTerm,
}

/// Mathematical model of an emitted function.
#[verifier::ext_equal]
pub struct MachineFnModel {
    pub name: Seq<char>,
    pub blocks: Seq<MachineBlockModel>,
}

/// The stack slot a machine instruction touches, if any.
pub open spec fn minst_slot(m: MInstModel) -> Option<u32> {
    match m {
        MInstModel::Load { slot, .. } => Some(slot),
        MInstModel::Store { slot, .. } => Some(slot),
        _ => None,
    }
}

/// Whether the block's machine code touches stack slot `s`.
pub open spec fn block_uses_slot(b: MachineBlockModel, s: u32) -> bool {
    exists|k: int| 0 <= k < b.insts.len() && minst_slot(#[trigger] b.insts[k]) == Some(s)
}

/// Whether the function's machine code touches stack slot `s`.
pub open spec fn fn_uses_slot(f: MachineFnModel, s: u32) -> bool {
    exists|i: int| 0 <= i < f.blocks.len() && block_uses_slot(#[trigger] f.blocks[i], s)
}

fn block_slot_bound(b: &MachineBlock, n0: u64) -> (n: u64)
    requires
        n0 <= u32::MAX as u64 + 1,
    ensures
        n0 <= n,
        n <= u32::MAX as u64 + 1,
        forall|s: u32| block_uses_slot(b@, s) ==> (s as u64) < n,
        n != n0 ==> block_uses_slot(b@, ((n - 1) as u32)),
{
    let mut n: u64 = n0;
    let mut k: usize = 0;
    while k < b.insts.len()
        invariant
            k <= b.insts.len(),
            b.insts@.len() == b@.insts.len(),
            n0 <= n,
            n <= u32::MAX as u64 + 1,
            forall|t: int|
                0 <= t < k ==> (match minst_slot(#[trigger] b@.insts[t]) {
                    Some(s) => (s as u64) < n,
                    None => true,
                }),
            n != n0 ==> (exists|t: int|
                0 <= t < k && minst_slot(#[trigger] b@.insts[t]) == Some(((n - 1) as u32))),
        decreases b.insts.len() - k,
    {
        let slot_opt: Option<u32> = match &b.insts[k] {
            MInst::Load { slot, .. } => Some(*slot),
            MInst::Store { slot, .. } => Some(*slot),
            _ => None,
        };
        proof {
            assert(minst_slot(b@.insts[k as int]) == slot_opt);
        }
        match slot_opt {
            Some(s) => {
                if (s as u64) + 1 > n {
                    n = (s as u64) + 1;
                    proof {
                        assert(minst_slot(b@.insts[k as int]) == Some(((n - 1) as u32)));
                    }
                }
            },
            None => {},
        }
        k += 1;
    }
    n
}

impl MachineFn {
    /// How many stack slots this function's frame provides under the
    /// slot-per-virtual-register assignment: one past the highest slot its
    /// machine code touches, and zero where it touches none.
    pub fn frame_slots(&self) -> (n: u64)
        ensures
            forall|s: u32| fn_uses_slot(self@, s) ==> (s as u64) < n,
            n != 0 ==> n <= u32::MAX as u64 + 1 && fn_uses_slot(self@, ((n - 1) as u32)),
    {
        let mut n: u64 = 0;
        let mut i: usize = 0;
        while i < self.blocks.len()
            invariant
                i <= self.blocks.len(),
                self.blocks@.len() == self@.blocks.len(),
                n <= u32::MAX as u64 + 1,
                forall|s: u32, b: int|
                    0 <= b < i && #[trigger] block_uses_slot(self@.blocks[b], s) ==> (s as u64)
                        < n,
                n != 0 ==> (exists|b: int|
                    0 <= b < i && block_uses_slot(
                        #[trigger] self@.blocks[b],
                        ((n - 1) as u32),
                    )),
            decreases self.blocks.len() - i,
        {
            proof {
                assert(self@.blocks[i as int] == self.blocks@[i as int]@);
            }
            n = block_slot_bound(&self.blocks[i], n);
            i += 1;
        }
        n
    }
}

impl View for MInst {
    type V = MInstModel;

    open spec fn view(&self) -> MInstModel {
        match self {
            MInst::MovImm { dst, value } => MInstModel::MovImm { dst: *dst, value: *value },
            MInst::Load { dst, slot } => MInstModel::Load { dst: *dst, slot: *slot },
            MInst::Store { slot, src } => MInstModel::Store { slot: *slot, src: *src },
            MInst::Alu { op, dst, src } => MInstModel::Alu { op: *op, dst: *dst, src: *src },
            MInst::CallSym { callee } => MInstModel::CallSym { callee: callee@ },
        }
    }
}

impl View for MachineBlock {
    type V = MachineBlockModel;

    open spec fn view(&self) -> MachineBlockModel {
        MachineBlockModel { insts: self.insts@.map_values(|i: MInst| i@), term: self.term }
    }
}

impl View for MachineFn {
    type V = MachineFnModel;

    open spec fn view(&self) -> MachineFnModel {
        MachineFnModel { name: self.name@, blocks: self.blocks@.map_values(|b: MachineBlock| b@) }
    }
}

} // verus!
