//! Query plan nodes: the closed set of instructions the executor
//! interprets. A plan is consumed read-only; the executor never mutates it.

use vstd::prelude::*;
use crate::json::names_view;
use crate::path::{Path, SegV};

verus! {

/// Mathematical model of a plan node.
pub enum PlanV {
    Fetch {
        service: Seq<char>,
        subquery: Seq<char>,
        variable_names: Seq<Seq<char>>,
        required_fields: Seq<Seq<char>>,
    },
    Flatten { path: Seq<SegV>, child: Box<PlanV> },
    Sequence { children: Seq<PlanV> },
    Parallel { children: Seq<PlanV> },
    Condition { variable: Seq<char>, child: Box<PlanV> },
}

/// One instruction in a query plan.
#[derive(Debug)]
pub enum PlanNode {
    /// Execute one subquery against one named backend service. The fetch
    /// requires the named variables to be bound, and its partial response
    /// to hold the named top-level fields.
    Fetch {
        service: String,
        subquery: String,
        variable_names: Vec<String>,
        required_fields: Vec<String>,
    },
    /// Rebind the child's merge target to `path`.
    Flatten { path: Path, child: Box<PlanNode> },
    /// Execute the children strictly in order; each child may read data
    /// merged by the ones before it.
    Sequence { children: Vec<PlanNode> },
    /// Execute the children concurrently; their merge targets are
    /// path-disjoint, so the final tree is independent of completion
    /// order.
    Parallel { children: Vec<PlanNode> },
    /// Execute the child only when the named variable is bound to `true`;
    /// otherwise skip it without recording anything.
    Condition { variable: String, child: Box<PlanNode> },
}

/// Model of a plan node.
pub open spec fn plan_view(p: PlanNode) -> PlanV
    decreases p,
{
    match p {
        PlanNode::Fetch { service, subquery, variable_names, required_fields } => PlanV::Fetch {
            service: service@,
            subquery: subquery@,
            variable_names: names_view(variable_names@),
            required_fields: names_view(required_fields@),
        },
        PlanNode::Flatten { path, child } => PlanV::Flatten {
            path: path@,
            child: Box::new(plan_view(*child)),
        },
        PlanNode::Sequence { children } => PlanV::Sequence {
            children: Seq::new(
                children@.len(),
                |i: int|
                    if 0 <= i < children@.len() {
                        plan_view(children@[i])
                    } else {
                        PlanV::Sequence { children: Seq::empty() }
                    },
            ),
        },
        PlanNode::Parallel { children } => PlanV::Parallel {
            children: Seq::new(
                children@.len(),
                |i: int|
                    if 0 <= i < children@.len() {
                        plan_view(children@[i])
                    } else {
                        PlanV::Parallel { children: Seq::empty() }
                    },
            ),
        },
        PlanNode::Condition { variable, child } => PlanV::Condition {
            variable: variable@,
            child: Box::new(plan_view(*child)),
        },
    }
}

impl View for PlanNode {
    type V = PlanV;

    open spec fn view(&self) -> PlanV {
        plan_view(*self)
    }
}

/// Model of a list of plan nodes.
pub open spec fn plans_view(v: Seq<PlanNode>) -> Seq<PlanV> {
    Seq::new(v.len(), |i: int| plan_view(v[i]))
}

/// A deferred branch of an incremental request: resolved after the primary
/// response, it yields one patch anchored at its path.
#[derive(Debug)]
pub struct DeferredBranch {
    /// The label the patch reports, if any.
    pub label: Option<String>,
    /// The path the patch is anchored at.
    pub path: Path,
    /// The plan that resolves the branch, against the branch's own tree.
    pub plan: PlanNode,
}

/// Mathematical model of a deferred branch.
pub struct DeferredBranchV {
    pub label: Option<Seq<char>>,
    pub path: Seq<SegV>,
    pub plan: PlanV,
}

impl View for DeferredBranch {
    type V = DeferredBranchV;

    open spec fn view(&self) -> DeferredBranchV {
        DeferredBranchV {
            label: match self.label {
                Some(ref s) => Some(s@),
                None => None,
            },
            path: self.path@,
            plan: self.plan@,
        }
    }
}

/// Model of a list of deferred branches.
pub open spec fn branches_view(v: Seq<DeferredBranch>) -> Seq<DeferredBranchV> {
    Seq::new(v.len(), |i: int| v[i]@)
}

} // verus!
