use gateway_core::error::FetchError;
use gateway_core::executor::{execute, execute_stream};
use gateway_core::json::{json_eq, Json};
use gateway_core::path::{Path, PathSegment};
use gateway_core::plan::{DeferredBranch, PlanNode};
use gateway_core::stream::{DeliveryStream, StreamPhase};

fn s(x: &str) -> String {
    x.to_string()
}

fn path(fields: &[&str]) -> Path {
    Path::new(fields.iter().map(|f| PathSegment::Field(s(f))).collect())
}

fn obj(entries: Vec<(&str, Json)>) -> Json {
    Json::Object(entries.into_iter().map(|(k, v)| (s(k), v)).collect())
}

fn fetch(service: &str) -> PlanNode {
    PlanNode::Fetch {
        service: s(service),
        subquery: s("{ id }"),
        variable_names: Vec::new(),
        required_fields: Vec::new(),
    }
}

fn flatten(at: &[&str], child: PlanNode) -> PlanNode {
    PlanNode::Flatten { path: path(at), child: Box::new(child) }
}

fn ext_value<'a>(err: &'a gateway_core::error::GraphQLError, key: &str) -> &'a Json {
    &err.extensions.iter().find(|(k, _)| k == key).expect("extension missing").1
}

#[test]
fn root_fetch_failure_degrades_whole_response() {
    let plan = fetch("inventory");
    let known = vec![s("products"), s("reviews")];
    let r = execute(&plan, &known, &Vec::new(), &Vec::new());
    assert!(r.data.is_none());
    assert!(r.has_next.is_none());
    assert_eq!(r.errors.len(), 1);
    assert_eq!(r.errors[0].message, "Query references unknown service 'inventory'.");
    assert!(json_eq(
        ext_value(&r.errors[0], "type"),
        &Json::Str(s("ValidationUnknownServiceError"))
    ));
    assert!(json_eq(ext_value(&r.errors[0], "service"), &Json::Str(s("inventory"))));
}

#[test]
fn parallel_with_one_failing_child_keeps_the_siblings() {
    // One primary fetch fills three sibling subtrees; three parallel
    // flattened fetches then resolve them, and the middle one fails.
    let plan = PlanNode::Sequence {
        children: vec![
            fetch("base"),
            PlanNode::Parallel {
                children: vec![
                    flatten(&["a"], fetch("s1")),
                    flatten(&["b"], fetch("s2")),
                    flatten(&["c"], fetch("s3")),
                ],
            },
        ],
    };
    let known = vec![s("base"), s("s1"), s("s2"), s("s3")];
    let outs: Vec<Result<Json, FetchError>> = vec![
        Ok(obj(vec![("a", obj(vec![])), ("b", obj(vec![])), ("c", obj(vec![]))])),
        Ok(obj(vec![("va", Json::Number(1))])),
        Err(FetchError::SubrequestHttpError { service: s("s2"), reason: s("timeout") }),
        Ok(obj(vec![("vc", Json::Number(3))])),
    ];
    let r = execute(&plan, &known, &Vec::new(), &outs);
    let want = obj(vec![
        ("a", obj(vec![("va", Json::Number(1))])),
        ("b", Json::Null),
        ("c", obj(vec![("vc", Json::Number(3))])),
    ]);
    assert!(json_eq(r.data.as_ref().unwrap(), &want));
    assert_eq!(r.errors.len(), 1);
    assert_eq!(r.errors[0].path, path(&["b"]));
    assert_eq!(r.errors[0].message, "HTTP fetch failed from 's2': timeout");
}

#[test]
fn sequence_children_merge_in_order() {
    let plan = PlanNode::Sequence {
        children: vec![fetch("users"), flatten(&["user"], fetch("ages"))],
    };
    let known = vec![s("users"), s("ages")];
    let outs: Vec<Result<Json, FetchError>> = vec![
        Ok(obj(vec![("user", obj(vec![("name", Json::Str(s("ada")))]))])),
        Ok(obj(vec![("age", Json::Number(36))])),
    ];
    let r = execute(&plan, &known, &Vec::new(), &outs);
    let want = obj(vec![(
        "user",
        obj(vec![("name", Json::Str(s("ada"))), ("age", Json::Number(36))]),
    )]);
    assert!(json_eq(r.data.as_ref().unwrap(), &want));
    assert!(r.errors.is_empty());
}

#[test]
fn condition_skips_child_unless_variable_is_true() {
    let plan = PlanNode::Condition { variable: s("withReviews"), child: Box::new(fetch("reviews")) };
    let known = vec![s("reviews")];
    let outs: Vec<Result<Json, FetchError>> = vec![Ok(obj(vec![("r", Json::Number(5))]))];

    let vars_off = vec![(s("withReviews"), Json::Bool(false))];
    let r = execute(&plan, &known, &vars_off, &outs);
    assert!(json_eq(r.data.as_ref().unwrap(), &obj(vec![])));
    assert!(r.errors.is_empty());

    let vars_on = vec![(s("withReviews"), Json::Bool(true))];
    let r = execute(&plan, &known, &vars_on, &outs);
    assert!(json_eq(r.data.as_ref().unwrap(), &obj(vec![("r", Json::Number(5))])));
}

#[test]
fn unanswered_fetch_is_a_no_response_failure() {
    let plan = PlanNode::Sequence { children: vec![fetch("base"), flatten(&["a"], fetch("slow"))] };
    let known = vec![s("base"), s("slow")];
    let outs: Vec<Result<Json, FetchError>> = vec![Ok(obj(vec![("a", obj(vec![]))]))];
    let r = execute(&plan, &known, &Vec::new(), &outs);
    assert_eq!(r.errors.len(), 1);
    assert_eq!(r.errors[0].message, "Service 'slow' returned no response.");
    assert!(json_eq(r.data.as_ref().unwrap(), &obj(vec![("a", Json::Null)])));
}

#[test]
fn incremental_delivery_emits_primary_then_patch() {
    let plan = fetch("users");
    let branches = vec![DeferredBranch {
        label: Some(s("profileDefer")),
        path: path(&["user", "profile"]),
        plan: fetch("profiles"),
    }];
    let known = vec![s("users"), s("profiles")];
    let outs: Vec<Result<Json, FetchError>> = vec![
        Ok(obj(vec![("user", obj(vec![("name", Json::Str(s("ada")))]))])),
        Ok(obj(vec![("bio", Json::Str(s("mathematician")))])),
    ];
    let rs = execute_stream(&plan, &branches, &known, &Vec::new(), &outs);
    assert_eq!(rs.len(), 2);

    assert_eq!(rs[0].has_next, Some(true));
    assert!(rs[0].path.is_none());
    let primary_want = obj(vec![("user", obj(vec![("name", Json::Str(s("ada")))]))]);
    assert!(json_eq(rs[0].data.as_ref().unwrap(), &primary_want));

    assert_eq!(rs[1].has_next, Some(false));
    assert_eq!(rs[1].label, Some(s("profileDefer")));
    assert_eq!(*rs[1].path.as_ref().unwrap(), path(&["user", "profile"]));
    let patch_want = obj(vec![("bio", Json::Str(s("mathematician")))]);
    assert!(json_eq(rs[1].data.as_ref().unwrap(), &patch_want));
}

#[test]
fn incremental_primary_failure_is_terminal() {
    let plan = fetch("users");
    let branches = vec![DeferredBranch {
        label: None,
        path: path(&["user", "profile"]),
        plan: fetch("profiles"),
    }];
    let known = vec![s("profiles")];
    let rs = execute_stream(&plan, &branches, &known, &Vec::new(), &Vec::new());
    assert_eq!(rs.len(), 1);
    assert_eq!(rs[0].has_next, Some(false));
    assert!(rs[0].data.is_none());
    assert_eq!(rs[0].errors.len(), 1);
    assert_eq!(rs[0].errors[0].message, "Query references unknown service 'users'.");
}

#[test]
fn non_incremental_execution_leaves_has_next_unset() {
    let plan = fetch("users");
    let known = vec![s("users")];
    let outs: Vec<Result<Json, FetchError>> = vec![Ok(obj(vec![("u", Json::Number(1))]))];
    let rs = execute_stream(&plan, &Vec::new(), &known, &Vec::new(), &outs);
    assert_eq!(rs.len(), 1);
    assert_eq!(rs[0].has_next, None);
}

#[test]
fn cancelling_a_stream_closes_it_without_emitting() {
    let mut stream = DeliveryStream::new();
    assert_eq!(stream.phase, StreamPhase::AwaitingPrimary);

    let e = FetchError::SubrequestNoResponse { service: s("reviews") };
    let mut primary = e.to_response(false);
    primary.has_next = Some(true);
    stream.emit_primary(primary);
    assert_eq!(stream.phase, StreamPhase::Streaming);
    assert_eq!(stream.emitted.len(), 1);

    stream.cancel();
    assert_eq!(stream.phase, StreamPhase::Closed);
    assert_eq!(stream.emitted.len(), 1);

    stream.cancel();
    assert_eq!(stream.phase, StreamPhase::Closed);
    assert_eq!(stream.emitted.len(), 1);
}

#[test]
fn terminal_patch_closes_the_stream() {
    let mut stream = DeliveryStream::new();
    let e = FetchError::SubrequestNoResponse { service: s("a") };
    let mut primary = e.to_response(false);
    primary.has_next = Some(true);
    stream.emit_primary(primary);

    let patch = e.to_response(true);
    stream.emit_patch(patch);
    assert_eq!(stream.phase, StreamPhase::Closed);
    assert_eq!(stream.emitted.len(), 2);
}
