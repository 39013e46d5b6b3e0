//! The arguments of the plan tool.
use vstd::prelude::*;

verus! {

/// How far a step has come.
#[derive(Debug, Clone, Copy, PartialEq, Eq, Structural)]
pub enum StepStatus {
    Pending,
    InProgress,
    Completed,
}

/// A step of a plan.
#[derive(Debug, Clone, PartialEq, Eq)]
pub struct PlanItemArg {
    pub step: String,
    pub tool: Option<String>,
    pub status: StepStatus,
}

/// A plan, with what there is to say about it.
#[derive(Debug, Clone, PartialEq, Eq)]
pub struct UpdatePlanArgs {
    pub explanation: Option<String>,
    pub action_plan: Vec<PlanItemArg>,
}

} // verus!
