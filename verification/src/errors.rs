//! The failures a build can surface. A build either fully succeeds or fails
//! outright with one of these; no partial code object is ever handed back.

use vstd::prelude::*;

verus! {

/// The construct instruction selection could not lower.
#[derive(Clone, PartialEq, Eq, Debug)]
pub enum LowerReason {
    /// The intrinsic has no mapping on this target.
    UnknownIntrinsic { name: String },
    /// The call needs more argument registers than the calling convention
    /// provides.
    TooManyCallArgs { callee: String },
}

/// Instruction selection could not lower a construct of the named function.
#[derive(Clone, PartialEq, Eq, Debug)]
pub struct LoweringError {
    pub function: String,
    pub reason: LowerReason,
}

/// A whole build's failure.
#[derive(Clone, PartialEq, Eq, Debug)]
pub enum BuildError {
    /// The requested architecture triple has no matching concrete target,
    /// or the code-emission context does not recognize it.
    UnsupportedArchitecture { triple: String },
    /// Emission of one function failed; the build is abandoned.
    Lowering { error: LoweringError },
    /// A function identity was about to be recorded twice. Well-formed input
    /// never produces this; it marks a namespace with a repeated identity.
    DuplicateEmission { function: String },
}

/// Mathematical model of a lowering failure's reason.
pub enum ReasonModel {
    UnknownIntrinsic { name: Seq<char> },
    TooManyCallArgs { callee: Seq<char> },
}

/// Mathematical model of a per-function lowering failure.
#[verifier::ext_equal]
pub struct LoweringErrorModel {
    pub function: Seq<char>,
    pub reason: ReasonModel,
}

/// Mathematical model of a build failure.
pub enum BuildErrorModel {
    UnsupportedArchitecture { triple: Seq<char> },
    Lowering { error: LoweringErrorModel },
    DuplicateEmission { function: Seq<char> },
}

impl View for LowerReason {
    type V = ReasonModel;

    open spec fn view(&self) -> ReasonModel {
        match self {
            LowerReason::UnknownIntrinsic { name } => (ReasonModel::UnknownIntrinsic {
                name: name@,
            }),
            LowerReason::TooManyCallArgs { callee } => (ReasonModel::TooManyCallArgs {
                callee: callee@,
            }),
        }
    }
}

impl View for LoweringError {
    type V = LoweringErrorModel;

    open spec fn view(&self) -> LoweringErrorModel {
        LoweringErrorModel { function: self.function@, reason: self.reason@ }
    }
}

impl View for BuildError {
    type V = BuildErrorModel;

    open spec fn view(&self) -> BuildErrorModel {
        match self {
            BuildError::UnsupportedArchitecture { triple } => (
            BuildErrorModel::UnsupportedArchitecture { triple: triple@ }),
            BuildError::Lowering { error } => BuildErrorModel::Lowering { error: error@ },
            BuildError::DuplicateEmission { function } => (BuildErrorModel::DuplicateEmission {
                function: function@,
            }),
        }
    }
}

} // verus!
