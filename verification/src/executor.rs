//! The query plan executor: walks the plan tree, takes each fetch's
//! outcome, hands partial responses to the merger, aggregates errors, and
//! produces the final response or the responses of an incremental stream.
//!
//! The transport runs outside this crate; the executor receives the
//! already-classified outcome of each attempted fetch, one per `Fetch`
//! node in traversal order. `Parallel` children are interpreted in
//! declaration order: their merge targets are path-disjoint, so the final
//! tree is independent of completion order (`lemma_disjoint_merge_commutes`),
//! and a host may resolve them concurrently.
//!
//! A failure at a non-root node degrades only its subtree: the subtree is
//! nulled, an error scoped to the node's path is recorded, and unrelated
//! siblings go on. A failure at the root degrades the whole response to a
//! single error with no data.

use vstd::prelude::*;
use crate::json::{
    Json, JsonV, entries_view, json_clone, names_view, obj_get,
};
use crate::error::{
    FetchError, FetchErrorV, GraphQLError, GraphQLResponse, GraphQLResponseV, errors_view,
    to_graphql_error_spec, to_response_spec,
};
use crate::fetch::{outcome_view, validate_model};
use crate::merge::{
    lemma_splice_err_iff_unreadable, lemma_splice_preserves_disjoint_read,
    lemma_splice_read_at_target, merge, merge_model, merge_value, null_out, read_at, splice,
};
use crate::path::{Path, SegV, disjoint_paths};
use crate::plan::{DeferredBranch, DeferredBranchV, PlanNode, PlanV, branches_view, plans_view};

verus! {

/// Model of a list of fetch outcomes.
pub open spec fn outcomes_view(v: Seq<Result<Json, FetchError>>) -> Seq<
    Result<JsonV, FetchErrorV>,
> {
    Seq::new(v.len(), |i: int| outcome_view(v[i]))
}

/// What interpreting a plan fragment yields: the updated tree, the errors
/// recorded, and how many fetch outcomes were consumed.
#[verifier::ext_equal]
pub struct RunV {
    pub tree: JsonV,
    pub errors: Seq<crate::error::GraphQLErrorV>,
    pub used: int,
}

/// The exact interpretation of one plan node against the tree `tree`,
/// merging at the target path `at`, consuming outcomes from `cur` on.
///
/// A `Fetch` is validated first; a validation failure consumes no outcome.
/// A valid fetch consumes one outcome: a partial response is merged at
/// `at`, a failure nulls the subtree at `at` and is recorded at `at`. A
/// fetch with no outcome left is one the transport never answered.
/// `Flatten` rebinds the target path. `Sequence` and `Parallel` interpret
/// their children in order. `Condition` interprets its child only when its
/// variable is bound to `true`.
pub open spec fn run_plan(
    p: PlanV,
    known: Seq<Seq<char>>,
    vars: Seq<(Seq<char>, JsonV)>,
    outs: Seq<Result<JsonV, FetchErrorV>>,
    cur: int,
    tree: JsonV,
    at: Seq<SegV>,
) -> RunV
    decreases p, 0int,
{
    match p {
        PlanV::Fetch { service, subquery, variable_names, required_fields } => {
            match validate_model(service, known, variable_names, vars) {
                Some(e) => RunV {
                    tree: splice(tree, at, JsonV::Null).tree,
                    errors: seq![to_graphql_error_spec(e, Some(at))],
                    used: 0,
                },
                None => if cur < outs.len() {
                    match outs[cur] {
                        Ok(data) => {
                            let m = merge_model(tree, at, data, required_fields);
                            RunV {
                                tree: m.0,
                                errors: Seq::new(
                                    m.1.len(),
                                    |i: int| to_graphql_error_spec(m.1[i], Some(at)),
                                ),
                                used: 1,
                            }
                        },
                        Err(e) => RunV {
                            tree: splice(tree, at, JsonV::Null).tree,
                            errors: seq![to_graphql_error_spec(e, Some(at))],
                            used: 1,
                        },
                    }
                } else {
                    RunV {
                        tree: splice(tree, at, JsonV::Null).tree,
                        errors: seq![
                            to_graphql_error_spec(
                                FetchErrorV::SubrequestNoResponse { service },
                                Some(at),
                            ),
                        ],
                        used: 0,
                    }
                },
            }
        },
        PlanV::Flatten { path, child } => run_plan(*child, known, vars, outs, cur, tree, path),
        PlanV::Sequence { children } => run_children(children, known, vars, outs, cur, tree, at),
        PlanV::Parallel { children } => run_children(children, known, vars, outs, cur, tree, at),
        PlanV::Condition { variable, child } => if obj_get(vars, variable) == Some(
            JsonV::Bool(true),
        ) {
            run_plan(*child, known, vars, outs, cur, tree, at)
        } else {
            RunV { tree, errors: Seq::empty(), used: 0 }
        },
    }
}

/// The children of a node, interpreted in order, threading the tree and
/// the outcome cursor, concatenating the errors.
pub open spec fn run_children(
    cs: Seq<PlanV>,
    known: Seq<Seq<char>>,
    vars: Seq<(Seq<char>, JsonV)>,
    outs: Seq<Result<JsonV, FetchErrorV>>,
    cur: int,
    tree: JsonV,
    at: Seq<SegV>,
) -> RunV
    decreases cs, 1int,
{
    if cs.len() == 0 {
        RunV { tree, errors: Seq::empty(), used: 0 }
    } else {
        let h = run_plan(cs[0], known, vars, outs, cur, tree, at);
        let t = run_children(cs.skip(1), known, vars, outs, cur + h.used, h.tree, at);
        RunV { tree: t.tree, errors: h.errors + t.errors, used: h.used + t.used }
    }
}

/// Outcomes are consumed forward, never past the end of the list.
pub proof fn lemma_run_plan_used(
    p: PlanV,
    known: Seq<Seq<char>>,
    vars: Seq<(Seq<char>, JsonV)>,
    outs: Seq<Result<JsonV, FetchErrorV>>,
    cur: int,
    tree: JsonV,
    at: Seq<SegV>,
)
    requires
        0 <= cur <= outs.len(),
    ensures
        ({
            let m = run_plan(p, known, vars, outs, cur, tree, at);
            0 <= m.used && cur + m.used <= outs.len()
        }),
    decreases p, 0int,
{
    match p {
        PlanV::Flatten { path, child } => {
            lemma_run_plan_used(*child, known, vars, outs, cur, tree, path);
        },
        PlanV::Sequence { children } => {
            lemma_run_children_used(children, known, vars, outs, cur, tree, at);
        },
        PlanV::Parallel { children } => {
            lemma_run_children_used(children, known, vars, outs, cur, tree, at);
        },
        PlanV::Condition { variable, child } => {
            if obj_get(vars, variable) == Some(JsonV::Bool(true)) {
                lemma_run_plan_used(*child, known, vars, outs, cur, tree, at);
            }
        },
        _ => {},
    }
}

/// Outcomes are consumed forward by a child list, never past the end.
pub proof fn lemma_run_children_used(
    cs: Seq<PlanV>,
    known: Seq<Seq<char>>,
    vars: Seq<(Seq<char>, JsonV)>,
    outs: Seq<Result<JsonV, FetchErrorV>>,
    cur: int,
    tree: JsonV,
    at: Seq<SegV>,
)
    requires
        0 <= cur <= outs.len(),
    ensures
        ({
            let m = run_children(cs, known, vars, outs, cur, tree, at);
            0 <= m.used && cur + m.used <= outs.len()
        }),
    decreases cs, 1int,
{
    if cs.len() == 0 {
    } else {
        let h = run_plan(cs[0], known, vars, outs, cur, tree, at);
        lemma_run_plan_used(cs[0], known, vars, outs, cur, tree, at);
        lemma_run_children_used(cs.skip(1), known, vars, outs, cur + h.used, h.tree, at);
    }
}

/// Interpret one plan node, exactly as `run_plan` says.
#[verifier::loop_isolation(false)]
pub fn execute_node(
    plan: &PlanNode,
    known: &Vec<String>,
    vars: &Vec<(String, Json)>,
    outs: &Vec<Result<Json, FetchError>>,
    cur: usize,
    tree: &Json,
    at: &Path,
) -> (r: (Json, Vec<GraphQLError>, usize))
    requires
        cur <= outs@.len(),
    ensures
        ({
            let m = run_plan(
                plan@,
                names_view(known@),
                entries_view(vars@),
                outcomes_view(outs@),
                cur as int,
                tree@,
                at@,
            );
            &&& r.0@ == m.tree
            &&& errors_view(r.1@) == m.errors
            &&& r.2 == cur + m.used
            &&& r.2 <= outs@.len()
        }),
    decreases plan, 0int,
{
    proof {
        lemma_run_plan_used(
            plan@,
            names_view(known@),
            entries_view(vars@),
            outcomes_view(outs@),
            cur as int,
            tree@,
            at@,
        );
    }
    match plan {
        PlanNode::Fetch { service, subquery: _, variable_names, required_fields } => {
            match crate::fetch::validate_fetch(service, known, variable_names, vars) {
                Some(e) => {
                    let t2 = null_out(tree, at);
                    let mut errs: Vec<GraphQLError> = Vec::new();
                    errs.push(e.to_graphql_error(Some(at.duplicate())));
                    proof {
                        assert(errors_view(errs@) =~= seq![
                            to_graphql_error_spec(e@, Some(at@)),
                        ]);
                    }
                    (t2, errs, cur)
                },
                None => {
                    if cur < outs.len() {
                        match &outs[cur] {
                            Ok(data) => {
                                let merged = merge(tree, at, data, required_fields);
                                let (t2, ferrs) = merged;
                                let mut errs: Vec<GraphQLError> = Vec::new();
                                let mut i: usize = 0;
                                while i < ferrs.len()
                                    invariant
                                        i <= ferrs.len(),
                                        errs@.len() == i as int,
                                        forall|j: int|
                                            0 <= j < i ==> errs@[j]@ == to_graphql_error_spec(
                                                ferrs@[j]@,
                                                Some(at@),
                                            ),
                                    decreases ferrs.len() - i,
                                {
                                    errs.push(ferrs[i].to_graphql_error(Some(at.duplicate())));
                                    i += 1;
                                }
                                proof {
                                    let m = merge_model(
                                        tree@,
                                        at@,
                                        data@,
                                        names_view(required_fields@),
                                    );
                                    assert(errors_view(errs@) =~= Seq::new(
                                        m.1.len(),
                                        |j: int| to_graphql_error_spec(m.1[j], Some(at@)),
                                    ));
                                }
                                (t2, errs, cur + 1)
                            },
                            Err(e) => {
                                let t2 = null_out(tree, at);
                                let mut errs: Vec<GraphQLError> = Vec::new();
                                errs.push(e.to_graphql_error(Some(at.duplicate())));
                                proof {
                                    assert(errors_view(errs@) =~= seq![
                                        to_graphql_error_spec(e@, Some(at@)),
                                    ]);
                                }
                                (t2, errs, cur + 1)
                            },
                        }
                    } else {
                        let e = FetchError::SubrequestNoResponse { service: service.clone() };
                        let t2 = null_out(tree, at);
                        let mut errs: Vec<GraphQLError> = Vec::new();
                        errs.push(e.to_graphql_error(Some(at.duplicate())));
                        proof {
                            assert(errors_view(errs@) =~= seq![
                                to_graphql_error_spec(e@, Some(at@)),
                            ]);
                        }
                        (t2, errs, cur)
                    }
                },
            }
        },
        PlanNode::Flatten { path, child } => {
            proof {
                assert(decreases_to!(*plan, 0int => (*plan)->Flatten_child, 0int));
            }
            execute_node(&**child, known, vars, outs, cur, tree, path)
        },
        PlanNode::Sequence { children } => {
            proof {
                assert(decreases_to!(*plan, 0int => (*plan)->Sequence_children, 1int));
                assert(plan@->Sequence_children =~= plans_view(children@));
            }
            execute_children(children, known, vars, outs, cur, tree, at)
        },
        PlanNode::Parallel { children } => {
            proof {
                assert(decreases_to!(*plan, 0int => (*plan)->Parallel_children, 1int));
                assert(plan@->Parallel_children =~= plans_view(children@));
            }
            execute_children(children, known, vars, outs, cur, tree, at)
        },
        PlanNode::Condition { variable, child } => {
            let taken: bool = match crate::merge::find_first_key(vars, variable) {
                Some(ix) => match &vars[ix].1 {
                    Json::Bool(b) => *b,
                    _ => false,
                },
                None => false,
            };
            proof {
                crate::json::lemma_first_key_index(entries_view(vars@), variable@);
                assert(taken == (obj_get(entries_view(vars@), variable@) == Some(
                    JsonV::Bool(true),
                )));
            }
            if taken {
                proof {
                    assert(decreases_to!(*plan, 0int => (*plan)->Condition_child, 0int));
                }
                execute_node(&**child, known, vars, outs, cur, tree, at)
            } else {
                let t2 = json_clone(tree);
                let errs: Vec<GraphQLError> = Vec::new();
                proof {
                    assert(errors_view(errs@) =~= Seq::<crate::error::GraphQLErrorV>::empty());
                }
                (t2, errs, cur)
            }
        },
    }
}

/// Interpret a child list in order, exactly as `run_children` says.
#[verifier::loop_isolation(false)]
pub fn execute_children(
    children: &Vec<PlanNode>,
    known: &Vec<String>,
    vars: &Vec<(String, Json)>,
    outs: &Vec<Result<Json, FetchError>>,
    cur: usize,
    tree: &Json,
    at: &Path,
) -> (r: (Json, Vec<GraphQLError>, usize))
    requires
        cur <= outs@.len(),
    ensures
        ({
            let m = run_children(
                plans_view(children@),
                names_view(known@),
                entries_view(vars@),
                outcomes_view(outs@),
                cur as int,
                tree@,
                at@,
            );
            &&& r.0@ == m.tree
            &&& errors_view(r.1@) == m.errors
            &&& r.2 == cur + m.used
            &&& r.2 <= outs@.len()
        }),
    decreases children, 1int,
{
    let ghost kv = names_view(known@);
    let ghost vv = entries_view(vars@);
    let ghost ov = outcomes_view(outs@);
    let ghost cs = plans_view(children@);
    let ghost full = run_children(cs, kv, vv, ov, cur as int, tree@, at@);
    proof {
        lemma_run_children_used(cs, kv, vv, ov, cur as int, tree@, at@);
        assert(cs.skip(0) =~= cs);
    }
    let mut t = json_clone(tree);
    let mut errs: Vec<GraphQLError> = Vec::new();
    let mut c = cur;
    let mut i: usize = 0;
    while i < children.len()
        invariant
            i <= children@.len(),
            cur <= c <= outs@.len(),
            full == ({
                let rest = run_children(cs.skip(i as int), kv, vv, ov, c as int, t@, at@);
                RunV {
                    tree: rest.tree,
                    errors: errors_view(errs@) + rest.errors,
                    used: (c - cur) + rest.used,
                }
            }),
        decreases children@.len() - i,
    {
        proof {
            assert(cs.skip(i as int)[0] == cs[i as int]);
            assert(cs.skip(i as int).skip(1) =~= cs.skip(i as int + 1));
            assert(decreases_to!(*children, 1int => children@[i as int], 0int));
            lemma_run_plan_used(cs[i as int], kv, vv, ov, c as int, t@, at@);
        }
        let ghost errs0 = errs@;
        let stepped = execute_node(&children[i], known, vars, outs, c, &t, at);
        let (t2, mut e2, c2) = stepped;
        let ghost e2v = e2@;
        errs.append(&mut e2);
        t = t2;
        c = c2;
        proof {
            assert(errors_view(errs@) =~= errors_view(errs0) + errors_view(e2v));
        }
        proof {
            let rest_new = run_children(cs.skip(i as int + 1), kv, vv, ov, c as int, t@, at@);
            assert((errors_view(errs0) + errors_view(e2v)) + rest_new.errors =~= errors_view(errs0)
                + (errors_view(e2v) + rest_new.errors));
        }
        i += 1;
    }
    proof {
        assert(cs.skip(children@.len() as int) =~= Seq::<PlanV>::empty());
        assert(errors_view(errs@) + Seq::<crate::error::GraphQLErrorV>::empty() =~= errors_view(
            errs@,
        ));
    }
    (t, errs, c)
}

/// The failure of a root-level fetch, when the plan's root is a `Fetch`
/// that cannot be attempted or whose one outcome failed.
pub open spec fn root_fetch_failure(
    p: PlanV,
    known: Seq<Seq<char>>,
    vars: Seq<(Seq<char>, JsonV)>,
    outs: Seq<Result<JsonV, FetchErrorV>>,
) -> Option<FetchErrorV> {
    match p {
        PlanV::Fetch { service, subquery, variable_names, required_fields } => {
            match validate_model(service, known, variable_names, vars) {
                Some(e) => Some(e),
                None => if outs.len() > 0 {
                    match outs[0] {
                        Ok(d) => None,
                        Err(e) => Some(e),
                    }
                } else {
                    Some(FetchErrorV::SubrequestNoResponse { service })
                },
            }
        },
        _ => None,
    }
}

/// What a single-shot execution yields. A root-level fetch failure
/// degrades the whole response to that one error with no data and no
/// `has_next`; otherwise the plan runs against an empty tree at the root
/// path, and the response carries the tree and the recorded errors, with
/// `has_next` absent.
pub open spec fn execute_model(
    p: PlanV,
    known: Seq<Seq<char>>,
    vars: Seq<(Seq<char>, JsonV)>,
    outs: Seq<Result<JsonV, FetchErrorV>>,
) -> GraphQLResponseV {
    match root_fetch_failure(p, known, vars, outs) {
        Some(e) => to_response_spec(e, false),
        None => {
            let m = run_plan(p, known, vars, outs, 0, JsonV::Object(Seq::empty()), Seq::empty());
            GraphQLResponseV {
                label: None,
                data: Some(m.tree),
                path: None,
                has_next: None,
                errors: m.errors,
                extensions: Seq::empty(),
            }
        },
    }
}

/// Law: a root-level fetch failure yields a response that carries no data
/// and exactly one error, whose message is the kind's template and whose
/// extensions carry the kind's name under `type`.
pub proof fn lemma_root_failure_degrades(
    p: PlanV,
    known: Seq<Seq<char>>,
    vars: Seq<(Seq<char>, JsonV)>,
    outs: Seq<Result<JsonV, FetchErrorV>>,
)
    requires
        root_fetch_failure(p, known, vars, outs) is Some,
    ensures
        ({
            let e = root_fetch_failure(p, known, vars, outs)->Some_0;
            let r = execute_model(p, known, vars, outs);
            &&& r == to_response_spec(e, false)
            &&& r.data is None
            &&& r.errors.len() == 1
            &&& r.errors[0].message == crate::error::message_spec(e)
            &&& obj_get(r.errors[0].extensions, "type"@) == Some(
                JsonV::Str(crate::error::kind_name_spec(e)),
            )
        }),
{
    let e = root_fetch_failure(p, known, vars, outs)->Some_0;
    crate::error::lemma_extensions_carry_kind(e);
}

/// Execute a plan as one single-shot request, exactly as `execute_model`
/// says: the plan runs against an empty tree, each fetch taking its
/// already-classified outcome in traversal order.
pub fn execute(
    plan: &PlanNode,
    known: &Vec<String>,
    vars: &Vec<(String, Json)>,
    outs: &Vec<Result<Json, FetchError>>,
) -> (r: GraphQLResponse)
    ensures
        r@ == execute_model(
            plan@,
            names_view(known@),
            entries_view(vars@),
            outcomes_view(outs@),
        ),
{
    match plan {
        PlanNode::Fetch { service, subquery: _, variable_names, required_fields: _ } => {
            match crate::fetch::validate_fetch(service, known, variable_names, vars) {
                Some(e) => {
                    return e.to_response(false);
                },
                None => {
                    if outs.len() == 0 {
                        let e = FetchError::SubrequestNoResponse { service: service.clone() };
                        return e.to_response(false);
                    }
                    match &outs[0] {
                        Err(e) => {
                            return e.to_response(false);
                        },
                        Ok(_) => {},
                    }
                },
            }
        },
        _ => {},
    }
    let empty_tree = Json::Object(Vec::new());
    let root = Path::empty();
    proof {
        assert(empty_tree@->Object_0 =~= Seq::<(Seq<char>, JsonV)>::empty());
        assert(empty_tree@ == JsonV::Object(Seq::<(Seq<char>, JsonV)>::empty()));
    }
    let stepped = execute_node(plan, known, vars, outs, 0, &empty_tree, &root);
    let (t, errs, _used) = stepped;
    let r = GraphQLResponse {
        label: None,
        data: Some(t),
        path: None,
        has_next: None,
        errors: errs,
        extensions: Vec::new(),
    };
    proof {
        assert(r@.extensions =~= Seq::<(Seq<char>, JsonV)>::empty());
        assert(r@ =~= execute_model(
            plan@,
            names_view(known@),
            entries_view(vars@),
            outcomes_view(outs@),
        ));
    }
    r
}

/// The patches of the deferred branches, in order. Each branch runs
/// against a fresh empty tree of its own, consuming outcomes where the
/// branches before it stopped; its patch is anchored at the branch's path
/// and says whether further patches remain.
pub open spec fn patches_model(
    bs: Seq<DeferredBranchV>,
    known: Seq<Seq<char>>,
    vars: Seq<(Seq<char>, JsonV)>,
    outs: Seq<Result<JsonV, FetchErrorV>>,
    cur: int,
) -> Seq<GraphQLResponseV>
    decreases bs.len(),
{
    if bs.len() == 0 {
        Seq::empty()
    } else {
        let b = bs[0];
        let m = run_plan(b.plan, known, vars, outs, cur, JsonV::Object(Seq::empty()), Seq::empty());
        let patch = GraphQLResponseV {
            label: b.label,
            data: Some(m.tree),
            path: Some(b.path),
            has_next: Some(bs.len() > 1),
            errors: m.errors,
            extensions: Seq::empty(),
        };
        seq![patch] + patches_model(bs.skip(1), known, vars, outs, cur + m.used)
    }
}

/// What an incremental execution yields: a primary response, then one
/// patch per deferred branch. A primary that fails at the root declares
/// the stream terminal with `has_next == Some(false)` and no patches
/// follow. Otherwise the primary carries the synchronous tree, with
/// `has_next == Some(true)` while branches remain (absent when none
/// exist), and the last patch closes the stream with
/// `has_next == Some(false)`.
pub open spec fn stream_model(
    p: PlanV,
    bs: Seq<DeferredBranchV>,
    known: Seq<Seq<char>>,
    vars: Seq<(Seq<char>, JsonV)>,
    outs: Seq<Result<JsonV, FetchErrorV>>,
) -> Seq<GraphQLResponseV> {
    match root_fetch_failure(p, known, vars, outs) {
        Some(e) => seq![to_response_spec(e, true)],
        None => {
            let m = run_plan(p, known, vars, outs, 0, JsonV::Object(Seq::empty()), Seq::empty());
            let primary = GraphQLResponseV {
                label: None,
                data: Some(m.tree),
                path: None,
                has_next: if bs.len() > 0 {
                    Some(true)
                } else {
                    None
                },
                errors: m.errors,
                extensions: Seq::empty(),
            };
            seq![primary] + patches_model(bs, known, vars, outs, m.used)
        },
    }
}

/// Model of a list of responses.
pub open spec fn responses_view(v: Seq<GraphQLResponse>) -> Seq<GraphQLResponseV> {
    Seq::new(v.len(), |i: int| v[i]@)
}

/// Execute a plan with deferred branches as an incremental request,
/// exactly as `stream_model` says: the primary response first, then one
/// patch per branch, the last patch closing the stream.
#[verifier::loop_isolation(false)]
pub fn execute_stream(
    plan: &PlanNode,
    branches: &Vec<DeferredBranch>,
    known: &Vec<String>,
    vars: &Vec<(String, Json)>,
    outs: &Vec<Result<Json, FetchError>>,
) -> (rs: Vec<GraphQLResponse>)
    ensures
        responses_view(rs@) == stream_model(
            plan@,
            branches_view(branches@),
            names_view(known@),
            entries_view(vars@),
            outcomes_view(outs@),
        ),
{
    let ghost kv = names_view(known@);
    let ghost vv = entries_view(vars@);
    let ghost ov = outcomes_view(outs@);
    let ghost bs = branches_view(branches@);
    let ghost full = stream_model(plan@, bs, kv, vv, ov);
    match plan {
        PlanNode::Fetch { service, subquery: _, variable_names, required_fields: _ } => {
            match crate::fetch::validate_fetch(service, known, variable_names, vars) {
                Some(e) => {
                    let mut rs: Vec<GraphQLResponse> = Vec::new();
                    rs.push(e.to_response(true));
                    proof {
                        assert(responses_view(rs@) =~= full);
                    }
                    return rs;
                },
                None => {
                    if outs.len() == 0 {
                        let e = FetchError::SubrequestNoResponse { service: service.clone() };
                        let mut rs: Vec<GraphQLResponse> = Vec::new();
                        rs.push(e.to_response(true));
                        proof {
                            assert(responses_view(rs@) =~= full);
                        }
                        return rs;
                    }
                    match &outs[0] {
                        Err(e) => {
                            let mut rs: Vec<GraphQLResponse> = Vec::new();
                            rs.push(e.to_response(true));
                            proof {
                                assert(responses_view(rs@) =~= full);
                            }
                            return rs;
                        },
                        Ok(_) => {},
                    }
                },
            }
        },
        _ => {},
    }
    let empty_tree = Json::Object(Vec::new());
    let root = Path::empty();
    proof {
        assert(empty_tree@->Object_0 =~= Seq::<(Seq<char>, JsonV)>::empty());
        assert(empty_tree@ == JsonV::Object(Seq::<(Seq<char>, JsonV)>::empty()));
    }
    let stepped = execute_node(plan, known, vars, outs, 0, &empty_tree, &root);
    let (t, errs, mut c) = stepped;
    let mut rs: Vec<GraphQLResponse> = Vec::new();
    rs.push(
        GraphQLResponse {
            label: None,
            data: Some(t),
            path: None,
            has_next: if branches.len() > 0 {
                Some(true)
            } else {
                None
            },
            errors: errs,
            extensions: Vec::new(),
        },
    );
    proof {
        assert(bs.skip(0) =~= bs);
        assert(rs@[0]@.extensions =~= Seq::<(Seq<char>, JsonV)>::empty());
        assert(responses_view(rs@) + patches_model(bs, kv, vv, ov, c as int) =~= full);
    }
    let mut i: usize = 0;
    while i < branches.len()
        invariant
            i <= branches@.len(),
            c <= outs@.len(),
            responses_view(rs@) + patches_model(bs.skip(i as int), kv, vv, ov, c as int) =~= full,
        decreases branches@.len() - i,
    {
        proof {
            assert(bs.skip(i as int)[0] == bs[i as int]);
            assert(bs.skip(i as int).skip(1) =~= bs.skip(i as int + 1));
            lemma_run_plan_used(bs[i as int].plan, kv, vv, ov, c as int, JsonV::Object(Seq::empty()), Seq::<SegV>::empty());
        }
        let ghost rs0 = rs@;
        let ghost cb = c as int;
        let branch = &branches[i];
        let stepped2 = execute_node(&branch.plan, known, vars, outs, c, &empty_tree, &root);
        let (bt, berrs, c2) = stepped2;
        let blabel: Option<String> = match &branch.label {
            Some(s) => Some(s.clone()),
            None => None,
        };
        let more: bool = i + 1 < branches.len();
        rs.push(
            GraphQLResponse {
                label: blabel,
                data: Some(bt),
                path: Some(branch.path.duplicate()),
                has_next: Some(more),
                errors: berrs,
                extensions: Vec::new(),
            },
        );
        c = c2;
        proof {
            let m = run_plan(
                bs[i as int].plan,
                kv,
                vv,
                ov,
                cb,
                JsonV::Object(Seq::<(Seq<char>, JsonV)>::empty()),
                Seq::<SegV>::empty(),
            );
            let patchv = GraphQLResponseV {
                label: bs[i as int].label,
                data: Some(m.tree),
                path: Some(bs[i as int].path),
                has_next: Some(bs.skip(i as int).len() > 1),
                errors: m.errors,
                extensions: Seq::empty(),
            };
            assert(rs@[rs0.len() as int]@.extensions =~= Seq::<(Seq<char>, JsonV)>::empty());
            assert(rs@[rs0.len() as int]@ =~= patchv);
            assert(patches_model(bs.skip(i as int), kv, vv, ov, cb) == seq![patchv]
                + patches_model(bs.skip(i as int + 1), kv, vv, ov, c as int));
            assert(responses_view(rs@) =~= responses_view(rs0) + seq![patchv]);
            assert((responses_view(rs0) + seq![patchv]) + patches_model(
                bs.skip(i as int + 1),
                kv,
                vv,
                ov,
                c as int,
            ) =~= responses_view(rs0) + (seq![patchv] + patches_model(
                bs.skip(i as int + 1),
                kv,
                vv,
                ov,
                c as int,
            )));
        }
        i += 1;
    }
    proof {
        assert(bs.skip(branches@.len() as int) =~= Seq::<DeferredBranchV>::empty());
        assert(responses_view(rs@) + Seq::<GraphQLResponseV>::empty() =~= responses_view(rs@));
        assert(responses_view(rs@) =~= full);
    }
    rs
}

/// The merge target of a flattened leaf.
pub open spec fn branch_target(c: PlanV) -> Seq<SegV> {
    c->Flatten_path
}

/// Whether a plan node is a flattened fetch leaf that passes validation
/// and requires no fields of its partial response.
pub open spec fn is_validated_leaf(
    c: PlanV,
    known: Seq<Seq<char>>,
    vars: Seq<(Seq<char>, JsonV)>,
) -> bool {
    &&& c is Flatten
    &&& (*c->Flatten_child) is Fetch
    &&& (*c->Flatten_child)->Fetch_required_fields.len() == 0
    &&& validate_model(
        (*c->Flatten_child)->Fetch_service,
        known,
        (*c->Flatten_child)->Fetch_variable_names,
        vars,
    ) is None
}

/// Interpreting flattened fetch leaves whose outcomes all succeeded
/// records no error and touches nothing but the targets: each target then
/// reads as its old subtree deep-merged with its partial response, and
/// any path disjoint from every target reads unchanged.
pub proof fn lemma_parallel_all_ok(
    cs: Seq<PlanV>,
    known: Seq<Seq<char>>,
    vars: Seq<(Seq<char>, JsonV)>,
    outs: Seq<Result<JsonV, FetchErrorV>>,
    cur: int,
    t0: JsonV,
    at: Seq<SegV>,
    q: Seq<SegV>,
)
    requires
        0 <= cur,
        cur + cs.len() <= outs.len(),
        forall|i: int| 0 <= i < cs.len() ==> is_validated_leaf(cs[i], known, vars),
        forall|i: int| 0 <= i < cs.len() ==> read_at(t0, branch_target(cs[i])) is Some,
        forall|i: int| 0 <= i < cs.len() ==> #[trigger] outs[cur + i] is Ok,
        forall|i: int, j: int|
            0 <= i < cs.len() && 0 <= j < cs.len() && i != j ==> disjoint_paths(
                branch_target(cs[i]),
                branch_target(cs[j]),
            ),
        forall|i: int| 0 <= i < cs.len() ==> disjoint_paths(q, branch_target(cs[i])),
    ensures
        ({
            let m = run_children(cs, known, vars, outs, cur, t0, at);
            &&& m.used == cs.len()
            &&& m.errors == Seq::<crate::error::GraphQLErrorV>::empty()
            &&& read_at(m.tree, q) == read_at(t0, q)
            &&& forall|i: int|
                0 <= i < cs.len() ==> read_at(m.tree, branch_target(cs[i])) == Some(
                    merge_value(read_at(t0, branch_target(cs[i]))->Some_0, outs[cur + i]->Ok_0),
                )
        }),
    decreases cs.len(),
{
    if cs.len() == 0 {
    } else {
        reveal_with_fuel(run_plan, 2);
        let c = cs[0];
        let f = *c->Flatten_child;
        let p0 = branch_target(c);
        let data = outs[cur]->Ok_0;
        assert(is_validated_leaf(c, known, vars));
        assert(read_at(t0, p0) is Some);
        assert(outs[cur + 0] is Ok);
        let h = run_plan(c, known, vars, outs, cur, t0, at);
        assert(h == run_plan(f, known, vars, outs, cur, t0, p0));
        assert(crate::merge::missing_required(data, f->Fetch_required_fields)
            == Seq::<Seq<char>>::empty());
        lemma_splice_err_iff_unreadable(t0, p0, data);
        let t1 = splice(t0, p0, data).tree;
        assert(h.tree == t1 && h.used == 1);
        assert(h.errors =~= Seq::<crate::error::GraphQLErrorV>::empty());
        let rest = cs.skip(1);
        assert(forall|i: int| 0 <= i < rest.len() ==> rest[i] == cs[i + 1]);
        assert forall|i: int| 0 <= i < rest.len() implies read_at(
            t1,
            branch_target(rest[i]),
        ) == read_at(t0, branch_target(rest[i])) by {
            lemma_splice_preserves_disjoint_read(t0, branch_target(cs[i + 1]), p0, data);
        }
        assert forall|i: int| 0 <= i < rest.len() implies #[trigger] outs[cur + 1 + i] is Ok by {
            assert(outs[cur + (i + 1)] is Ok);
        }
        lemma_parallel_all_ok(rest, known, vars, outs, cur + 1, t1, at, q);
        lemma_parallel_all_ok(rest, known, vars, outs, cur + 1, t1, at, p0);
        let mr = run_children(rest, known, vars, outs, cur + 1, t1, at);
        let m = run_children(cs, known, vars, outs, cur, t0, at);
        assert(m.tree == mr.tree && m.used == 1 + mr.used);
        assert(m.errors =~= Seq::<crate::error::GraphQLErrorV>::empty());
        lemma_splice_preserves_disjoint_read(t0, q, p0, data);
        lemma_splice_read_at_target(t0, p0, data);
        assert forall|i: int| 0 <= i < cs.len() implies read_at(
            m.tree,
            branch_target(cs[i]),
        ) == Some(
            merge_value(read_at(t0, branch_target(cs[i]))->Some_0, outs[cur + i]->Ok_0),
        ) by {
            if i == 0 {
                assert(read_at(m.tree, p0) == read_at(t1, p0));
            } else {
                assert(rest[i - 1] == cs[i]);
                assert(read_at(mr.tree, branch_target(rest[i - 1])) == Some(
                    merge_value(
                        read_at(t1, branch_target(rest[i - 1]))->Some_0,
                        outs[cur + 1 + (i - 1)]->Ok_0,
                    ),
                ));
            }
        }
    }
}

/// Law: among path-disjoint flattened fetch leaves of which exactly one
/// fails, the failure is scoped to its own target. Every sibling's target
/// reads as its old subtree deep-merged with its partial response, the
/// failed leaf's target reads as null, exactly one error is recorded, and
/// it carries the failed leaf's path.
pub proof fn lemma_parallel_single_failure(
    cs: Seq<PlanV>,
    known: Seq<Seq<char>>,
    vars: Seq<(Seq<char>, JsonV)>,
    outs: Seq<Result<JsonV, FetchErrorV>>,
    cur: int,
    t0: JsonV,
    at: Seq<SegV>,
    q: Seq<SegV>,
    k: int,
)
    requires
        0 <= cur,
        cur + cs.len() <= outs.len(),
        0 <= k < cs.len(),
        forall|i: int| 0 <= i < cs.len() ==> is_validated_leaf(cs[i], known, vars),
        forall|i: int| 0 <= i < cs.len() ==> read_at(t0, branch_target(cs[i])) is Some,
        forall|i: int| 0 <= i < cs.len() && i != k ==> #[trigger] outs[cur + i] is Ok,
        outs[cur + k] is Err,
        forall|i: int, j: int|
            0 <= i < cs.len() && 0 <= j < cs.len() && i != j ==> disjoint_paths(
                branch_target(cs[i]),
                branch_target(cs[j]),
            ),
        forall|i: int| 0 <= i < cs.len() ==> disjoint_paths(q, branch_target(cs[i])),
    ensures
        ({
            let m = run_children(cs, known, vars, outs, cur, t0, at);
            &&& m.used == cs.len()
            &&& m.errors == seq![
                to_graphql_error_spec(outs[cur + k]->Err_0, Some(branch_target(cs[k]))),
            ]
            &&& read_at(m.tree, q) == read_at(t0, q)
            &&& read_at(m.tree, branch_target(cs[k])) == Some(JsonV::Null)
            &&& forall|i: int|
                0 <= i < cs.len() && i != k ==> read_at(m.tree, branch_target(cs[i])) == Some(
                    merge_value(read_at(t0, branch_target(cs[i]))->Some_0, outs[cur + i]->Ok_0),
                )
        }),
    decreases cs.len(),
{
    reveal_with_fuel(run_plan, 2);
    let c = cs[0];
    let f = *c->Flatten_child;
    let p0 = branch_target(c);
    assert(is_validated_leaf(c, known, vars));
    assert(read_at(t0, p0) is Some);
    let h = run_plan(c, known, vars, outs, cur, t0, at);
    assert(h == run_plan(f, known, vars, outs, cur, t0, p0));
    let rest = cs.skip(1);
    assert(forall|i: int| 0 <= i < rest.len() ==> rest[i] == cs[i + 1]);
    let m = run_children(cs, known, vars, outs, cur, t0, at);
    if k == 0 {
        let e = outs[cur]->Err_0;
        assert(outs[cur + 0] is Err);
        lemma_splice_err_iff_unreadable(t0, p0, JsonV::Null);
        let t1 = splice(t0, p0, JsonV::Null).tree;
        assert(h.tree == t1 && h.used == 1);
        assert(h.errors == seq![to_graphql_error_spec(e, Some(p0))]);
        assert forall|i: int| 0 <= i < rest.len() implies read_at(
            t1,
            branch_target(rest[i]),
        ) == read_at(t0, branch_target(rest[i])) by {
            lemma_splice_preserves_disjoint_read(t0, branch_target(cs[i + 1]), p0, JsonV::Null);
        }
        assert forall|i: int| 0 <= i < rest.len() implies #[trigger] outs[cur + 1 + i] is Ok by {
            assert(outs[cur + (i + 1)] is Ok);
        }
        lemma_parallel_all_ok(rest, known, vars, outs, cur + 1, t1, at, q);
        lemma_parallel_all_ok(rest, known, vars, outs, cur + 1, t1, at, p0);
        let mr = run_children(rest, known, vars, outs, cur + 1, t1, at);
        assert(m.tree == mr.tree && m.used == 1 + mr.used);
        assert(m.errors =~= seq![to_graphql_error_spec(e, Some(p0))]);
        lemma_splice_preserves_disjoint_read(t0, q, p0, JsonV::Null);
        lemma_splice_read_at_target(t0, p0, JsonV::Null);
        assert(read_at(m.tree, p0) == read_at(t1, p0));
        assert(read_at(t1, p0) == Some(JsonV::Null));
        assert forall|i: int| 0 <= i < cs.len() && i != 0 implies read_at(
            m.tree,
            branch_target(cs[i]),
        ) == Some(
            merge_value(read_at(t0, branch_target(cs[i]))->Some_0, outs[cur + i]->Ok_0),
        ) by {
            assert(rest[i - 1] == cs[i]);
            assert(read_at(mr.tree, branch_target(rest[i - 1])) == Some(
                merge_value(
                    read_at(t1, branch_target(rest[i - 1]))->Some_0,
                    outs[cur + 1 + (i - 1)]->Ok_0,
                ),
            ));
        }
    } else {
        let data = outs[cur]->Ok_0;
        assert(outs[cur + 0] is Ok);
        assert(crate::merge::missing_required(data, f->Fetch_required_fields)
            == Seq::<Seq<char>>::empty());
        lemma_splice_err_iff_unreadable(t0, p0, data);
        let t1 = splice(t0, p0, data).tree;
        assert(h.tree == t1 && h.used == 1);
        assert(h.errors =~= Seq::<crate::error::GraphQLErrorV>::empty());
        assert forall|i: int| 0 <= i < rest.len() implies read_at(
            t1,
            branch_target(rest[i]),
        ) == read_at(t0, branch_target(rest[i])) by {
            lemma_splice_preserves_disjoint_read(t0, branch_target(cs[i + 1]), p0, data);
        }
        assert forall|i: int| 0 <= i < rest.len() && i != k - 1 implies #[trigger] outs[cur + 1
            + i] is Ok by {
            assert(outs[cur + (i + 1)] is Ok);
        }
        assert(outs[cur + 1 + (k - 1)] is Err);
        lemma_parallel_single_failure(rest, known, vars, outs, cur + 1, t1, at, q, k - 1);
        lemma_parallel_single_failure(rest, known, vars, outs, cur + 1, t1, at, p0, k - 1);
        let mr = run_children(rest, known, vars, outs, cur + 1, t1, at);
        assert(m.tree == mr.tree && m.used == 1 + mr.used);
        assert(rest[k - 1] == cs[k]);
        assert(m.errors =~= seq![
            to_graphql_error_spec(outs[cur + k]->Err_0, Some(branch_target(cs[k]))),
        ]);
        lemma_splice_preserves_disjoint_read(t0, q, p0, data);
        lemma_splice_read_at_target(t0, p0, data);
        assert(read_at(m.tree, branch_target(cs[k])) == Some(JsonV::Null));
        assert forall|i: int| 0 <= i < cs.len() && i != k implies read_at(
            m.tree,
            branch_target(cs[i]),
        ) == Some(
            merge_value(read_at(t0, branch_target(cs[i]))->Some_0, outs[cur + i]->Ok_0),
        ) by {
            if i == 0 {
                assert(read_at(m.tree, p0) == read_at(t1, p0));
            } else {
                assert(rest[i - 1] == cs[i]);
                assert(read_at(mr.tree, branch_target(rest[i - 1])) == Some(
                    merge_value(
                        read_at(t1, branch_target(rest[i - 1]))->Some_0,
                        outs[cur + 1 + (i - 1)]->Ok_0,
                    ),
                ));
            }
        }
    }
}

} // verus!
