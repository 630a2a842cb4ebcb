use gateway_core::error::{FetchError, GraphQLError};
use gateway_core::fetch::{classify_fetch, validate_fetch, FetchedBody};
use gateway_core::json::{json_clone, json_eq, Json};
use gateway_core::merge::{merge, null_out};
use gateway_core::path::{Path, PathSegment};

fn s(x: &str) -> String {
    x.to_string()
}

fn field(name: &str) -> PathSegment {
    PathSegment::Field(s(name))
}

fn path(fields: &[&str]) -> Path {
    Path::new(fields.iter().map(|f| field(f)).collect())
}

fn obj(entries: Vec<(&str, Json)>) -> Json {
    Json::Object(entries.into_iter().map(|(k, v)| (s(k), v)).collect())
}

fn assert_extension(err: &GraphQLError, key: &str, value: &str) {
    let found = err
        .extensions
        .iter()
        .find(|(k, _)| k == key)
        .unwrap_or_else(|| panic!("extension key '{}' missing", key));
    assert!(json_eq(&found.1, &Json::Str(s(value))));
}

// --- error taxonomy ---

#[test]
fn to_response_primary_declares_stream_terminal() {
    let e = FetchError::SubrequestNoResponse { service: s("reviews") };
    let r = e.to_response(true);
    assert_eq!(r.has_next, Some(false));
    assert!(r.data.is_none());
    assert!(r.label.is_none());
    assert!(r.path.is_none());
    assert_eq!(r.errors.len(), 1);
    assert!(r.extensions.is_empty());
}

#[test]
fn to_response_non_primary_leaves_has_next_unset() {
    let e = FetchError::SubrequestNoResponse { service: s("reviews") };
    let r = e.to_response(false);
    assert_eq!(r.has_next, None);
    assert!(r.data.is_none());
    assert_eq!(r.errors.len(), 1);
}

#[test]
fn graphql_error_carries_kind_and_fields_in_extensions() {
    let e = FetchError::SubrequestHttpError { service: s("reviews"), reason: s("timeout") };
    let g = e.to_graphql_error(None);
    assert_eq!(g.message, "HTTP fetch failed from 'reviews': timeout");
    assert!(g.locations.is_empty());
    assert_eq!(g.path, Path::empty());
    assert_extension(&g, "type", "SubrequestHttpError");
    assert_extension(&g, "service", "reviews");
    assert_extension(&g, "reason", "timeout");
}

#[test]
fn graphql_error_keeps_the_supplied_path() {
    let e = FetchError::ExecutionFieldNotFound { field: s("id") };
    let g = e.to_graphql_error(Some(path(&["user", "reviews"])));
    assert_eq!(g.path, path(&["user", "reviews"]));
    assert_extension(&g, "type", "ExecutionFieldNotFound");
    assert_extension(&g, "field", "id");
}

#[test]
fn message_templates_are_exact() {
    let cases: Vec<(FetchError, &str)> = vec![
        (
            FetchError::ValidationUnknownServiceError { service: s("inventory") },
            "Query references unknown service 'inventory'.",
        ),
        (
            FetchError::ValidationMissingVariable { name: s("userId") },
            "Query requires variable 'userId', but it was not provided.",
        ),
        (
            FetchError::ValidationPlanningError { reason: s("cycle") },
            "Query could not be planned: cycle",
        ),
        (FetchError::MalformedResponse { reason: s("bad json") }, "Response was malformed: bad json"),
        (
            FetchError::SubrequestNoResponse { service: s("reviews") },
            "Service 'reviews' returned no response.",
        ),
        (
            FetchError::SubrequestMalformedResponse { service: s("reviews"), reason: s("eof") },
            "Service 'reviews' response was malformed: eof",
        ),
        (
            FetchError::SubrequestUnexpectedPatchResponse { service: s("reviews") },
            "Service 'reviews' returned a PATCH response which was not expected.",
        ),
        (
            FetchError::SubrequestHttpError { service: s("reviews"), reason: s("503") },
            "HTTP fetch failed from 'reviews': 503",
        ),
        (
            FetchError::ExecutionFieldNotFound { field: s("sku") },
            "Subquery requires field 'sku' but it was not found in the current response.",
        ),
        (FetchError::ExecutionInvalidContent { reason: s("scalar") }, "Invalid content: scalar"),
        (FetchError::ExecutionPathNotFound { reason: s("gone") }, "Could find path: gone"),
    ];
    for (e, want) in cases {
        assert_eq!(e.message(), want);
    }
}

#[test]
fn every_kind_name_is_the_variant_name() {
    let e = FetchError::ValidationPlanningError { reason: s("x") };
    assert_eq!(e.kind_name(), "ValidationPlanningError");
    let e = FetchError::MalformedResponse { reason: s("x") };
    assert_eq!(e.kind_name(), "MalformedResponse");
    let e = FetchError::ExecutionInvalidContent { reason: s("x") };
    assert_eq!(e.kind_name(), "ExecutionInvalidContent");
    let e = FetchError::ExecutionPathNotFound { reason: s("x") };
    assert_eq!(e.kind_name(), "ExecutionPathNotFound");
}

// --- merger ---

#[test]
fn merges_at_disjoint_paths_commute() {
    let tree = obj(vec![
        ("a", obj(vec![("x", Json::Number(1))])),
        ("b", obj(vec![("y", Json::Number(2))])),
    ]);
    let p1 = path(&["a"]);
    let p2 = path(&["b"]);
    let d1 = obj(vec![("x2", Json::Number(10))]);
    let d2 = obj(vec![("y2", Json::Number(20))]);
    let none: Vec<String> = Vec::new();

    let (t_ab, e1) = merge(&tree, &p1, &d1, &none);
    let (t_ab, e2) = merge(&t_ab, &p2, &d2, &none);
    let (t_ba, e3) = merge(&tree, &p2, &d2, &none);
    let (t_ba, e4) = merge(&t_ba, &p1, &d1, &none);

    assert!(e1.is_empty() && e2.is_empty() && e3.is_empty() && e4.is_empty());
    assert!(json_eq(&t_ab, &t_ba));
    let want = obj(vec![
        ("a", obj(vec![("x", Json::Number(1)), ("x2", Json::Number(10))])),
        ("b", obj(vec![("y", Json::Number(2)), ("y2", Json::Number(20))])),
    ]);
    assert!(json_eq(&t_ab, &want));
}

#[test]
fn merge_deep_merges_objects_at_the_target() {
    let tree = obj(vec![("user", obj(vec![("name", Json::Str(s("ada")))]))]);
    let partial = obj(vec![("age", Json::Number(36))]);
    let none: Vec<String> = Vec::new();
    let (t, errs) = merge(&tree, &path(&["user"]), &partial, &none);
    assert!(errs.is_empty());
    let want = obj(vec![
        ("user", obj(vec![("name", Json::Str(s("ada"))), ("age", Json::Number(36))])),
    ]);
    assert!(json_eq(&t, &want));
}

#[test]
fn merge_through_a_list_index() {
    let tree = obj(vec![(
        "items",
        Json::Array(vec![obj(vec![("id", Json::Number(1))]), obj(vec![("id", Json::Number(2))])]),
    )]);
    let mut segs = vec![field("items")];
    segs.push(PathSegment::Index(1));
    let target = Path::new(segs);
    let partial = obj(vec![("price", Json::Number(99))]);
    let none: Vec<String> = Vec::new();
    let (t, errs) = merge(&tree, &target, &partial, &none);
    assert!(errs.is_empty());
    let want = obj(vec![(
        "items",
        Json::Array(vec![
            obj(vec![("id", Json::Number(1))]),
            obj(vec![("id", Json::Number(2)), ("price", Json::Number(99))]),
        ]),
    )]);
    assert!(json_eq(&t, &want));
}

#[test]
fn merge_at_a_missing_path_nulls_and_reports() {
    let tree = obj(vec![("a", Json::Number(1))]);
    let target = path(&["missing", "deeper"]);
    let partial = obj(vec![("x", Json::Number(1))]);
    let none: Vec<String> = Vec::new();
    let (t, errs) = merge(&tree, &target, &partial, &none);
    assert!(json_eq(&t, &Json::Null));
    assert_eq!(errs.len(), 1);
    assert_eq!(
        errs[0],
        FetchError::ExecutionPathNotFound { reason: s("no addressable field 'missing'") }
    );
}

#[test]
fn merge_with_missing_required_field_reports_and_nulls_target() {
    let tree = obj(vec![("user", obj(vec![("name", Json::Str(s("ada")))]))]);
    let partial = obj(vec![("age", Json::Number(36))]);
    let required = vec![s("age"), s("id")];
    let (t, errs) = merge(&tree, &path(&["user"]), &partial, &required);
    assert_eq!(errs.len(), 1);
    assert_eq!(errs[0], FetchError::ExecutionFieldNotFound { field: s("id") });
    let want = obj(vec![("user", Json::Null)]);
    assert!(json_eq(&t, &want));
}

#[test]
fn null_out_replaces_only_the_addressed_subtree() {
    let tree = obj(vec![("a", Json::Number(1)), ("b", Json::Number(2))]);
    let t = null_out(&tree, &path(&["a"]));
    let want = obj(vec![("a", Json::Null), ("b", Json::Number(2))]);
    assert!(json_eq(&t, &want));
}

// --- paths ---

#[test]
fn path_prefix_and_disjointness() {
    let p = path(&["user", "reviews"]);
    let q = path(&["user"]);
    let r = path(&["product"]);
    assert!(q.is_prefix_of(&p));
    assert!(!p.is_prefix_of(&q));
    assert!(!q.is_disjoint_with(&p));
    assert!(r.is_disjoint_with(&p));
    assert!(Path::empty().is_prefix_of(&r));
    assert_eq!(q.child(field("reviews")), p);
}

// --- fetcher classification ---

#[test]
fn classify_no_response() {
    let r = classify_fetch(&s("reviews"), FetchedBody::NoResponse, false);
    assert_eq!(r.unwrap_err(), FetchError::SubrequestNoResponse { service: s("reviews") });
}

#[test]
fn classify_transport_failure() {
    let r = classify_fetch(
        &s("reviews"),
        FetchedBody::TransportFailure { reason: s("connect timeout") },
        false,
    );
    assert_eq!(
        r.unwrap_err(),
        FetchError::SubrequestHttpError { service: s("reviews"), reason: s("connect timeout") }
    );
}

#[test]
fn classify_malformed_body() {
    let r = classify_fetch(&s("reviews"), FetchedBody::Malformed { reason: s("eof") }, false);
    assert_eq!(
        r.unwrap_err(),
        FetchError::SubrequestMalformedResponse { service: s("reviews"), reason: s("eof") }
    );
}

#[test]
fn classify_unexpected_patch() {
    let r = classify_fetch(
        &s("reviews"),
        FetchedBody::Patch { data: obj(vec![]) },
        false,
    );
    assert_eq!(r.unwrap_err(), FetchError::SubrequestUnexpectedPatchResponse { service: s("reviews") });
}

#[test]
fn classify_accepts_single_and_streamed_patch() {
    let data = obj(vec![("a", Json::Number(1))]);
    let r = classify_fetch(&s("reviews"), FetchedBody::Single { data: json_clone(&data) }, false);
    assert!(json_eq(&r.unwrap(), &data));
    let r = classify_fetch(&s("reviews"), FetchedBody::Patch { data: json_clone(&data) }, true);
    assert!(json_eq(&r.unwrap(), &data));
}

#[test]
fn validate_rejects_unknown_service_and_missing_variable() {
    let known = vec![s("products"), s("reviews")];
    let vars = vec![(s("userId"), Json::Number(7))];
    let r = validate_fetch(&s("inventory"), &known, &vec![], &vars);
    assert_eq!(r, Some(FetchError::ValidationUnknownServiceError { service: s("inventory") }));
    let r = validate_fetch(&s("reviews"), &known, &vec![s("userId"), s("locale")], &vars);
    assert_eq!(r, Some(FetchError::ValidationMissingVariable { name: s("locale") }));
    let r = validate_fetch(&s("reviews"), &known, &vec![s("userId")], &vars);
    assert_eq!(r, None);
}
