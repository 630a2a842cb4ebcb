//! The error taxonomy: the closed set of failure kinds produced during
//! validation, subrequests and execution, and their translation to
//! wire-level error objects.
//!
//! A `FetchError` is a value, constructed once at the point of failure and
//! consumed exactly once to build a `GraphQLError` or a terminal
//! `GraphQLResponse`. The message templates are stable text: downstream
//! tooling may pattern-match on them.

use vstd::prelude::*;
use vstd::string::StringExecFns;
use crate::json::{Json, JsonV, entries_view, obj_get};
use crate::path::{Path, SegV};

verus! {

/// Mathematical model of a failure kind.
pub enum FetchErrorV {
    ValidationUnknownServiceError { service: Seq<char> },
    ValidationMissingVariable { name: Seq<char> },
    ValidationPlanningError { reason: Seq<char> },
    MalformedResponse { reason: Seq<char> },
    SubrequestNoResponse { service: Seq<char> },
    SubrequestMalformedResponse { service: Seq<char>, reason: Seq<char> },
    SubrequestUnexpectedPatchResponse { service: Seq<char> },
    SubrequestHttpError { service: Seq<char>, reason: Seq<char> },
    ExecutionFieldNotFound { field: Seq<char> },
    ExecutionInvalidContent { reason: Seq<char> },
    ExecutionPathNotFound { reason: Seq<char> },
}

/// A failure anywhere in planning, fetching or execution. These are not
/// returned to a client as such; each is converted to a `GraphQLError`.
#[derive(Debug, Clone, PartialEq, Eq)]
pub enum FetchError {
    /// The query references a backend service that is not known.
    ValidationUnknownServiceError { service: String },
    /// The query requires a variable that was not provided.
    ValidationMissingVariable { name: String },
    /// The query could not be planned.
    ValidationPlanningError { reason: String },
    /// The top-level response was malformed.
    MalformedResponse { reason: String },
    /// A service returned no response.
    SubrequestNoResponse { service: String },
    /// A service's response was malformed.
    SubrequestMalformedResponse { service: String, reason: String },
    /// A service returned a patch response where none was expected.
    SubrequestUnexpectedPatchResponse { service: String },
    /// The transport-level fetch from a service failed; distinct from a
    /// GraphQL-level error returned inside a well-formed response body.
    SubrequestHttpError { service: String, reason: String },
    /// A subquery required a field that the current response does not hold.
    ExecutionFieldNotFound { field: String },
    /// A partial response could not be interpreted as the expected shape.
    ExecutionInvalidContent { reason: String },
    /// A merge target path could not be walked in the response tree.
    ExecutionPathNotFound { reason: String },
}

impl View for FetchError {
    type V = FetchErrorV;

    open spec fn view(&self) -> FetchErrorV {
        match self {
            FetchError::ValidationUnknownServiceError { service } => FetchErrorV::ValidationUnknownServiceError { service: service@ },
            FetchError::ValidationMissingVariable { name } => FetchErrorV::ValidationMissingVariable { name: name@ },
            FetchError::ValidationPlanningError { reason } => FetchErrorV::ValidationPlanningError { reason: reason@ },
            FetchError::MalformedResponse { reason } => FetchErrorV::MalformedResponse { reason: reason@ },
            FetchError::SubrequestNoResponse { service } => FetchErrorV::SubrequestNoResponse { service: service@ },
            FetchError::SubrequestMalformedResponse { service, reason } => FetchErrorV::SubrequestMalformedResponse { service: service@, reason: reason@ },
            FetchError::SubrequestUnexpectedPatchResponse { service } => FetchErrorV::SubrequestUnexpectedPatchResponse { service: service@ },
            FetchError::SubrequestHttpError { service, reason } => FetchErrorV::SubrequestHttpError { service: service@, reason: reason@ },
            FetchError::ExecutionFieldNotFound { field } => FetchErrorV::ExecutionFieldNotFound { field: field@ },
            FetchError::ExecutionInvalidContent { reason } => FetchErrorV::ExecutionInvalidContent { reason: reason@ },
            FetchError::ExecutionPathNotFound { reason } => FetchErrorV::ExecutionPathNotFound { reason: reason@ },
        }
    }
}

/// The canonical human-readable template of each kind.
pub open spec fn message_spec(e: FetchErrorV) -> Seq<char> {
    match e {
        FetchErrorV::ValidationUnknownServiceError { service } => "Query references unknown service '"@ + service + "'."@,
        FetchErrorV::ValidationMissingVariable { name } => "Query requires variable '"@ + name + "', but it was not provided."@,
        FetchErrorV::ValidationPlanningError { reason } => "Query could not be planned: "@ + reason,
        FetchErrorV::MalformedResponse { reason } => "Response was malformed: "@ + reason,
        FetchErrorV::SubrequestNoResponse { service } => "Service '"@ + service + "' returned no response."@,
        FetchErrorV::SubrequestMalformedResponse { service, reason } => "Service '"@ + service + "' response was malformed: "@ + reason,
        FetchErrorV::SubrequestUnexpectedPatchResponse { service } => "Service '"@ + service + "' returned a PATCH response which was not expected."@,
        FetchErrorV::SubrequestHttpError { service, reason } => "HTTP fetch failed from '"@ + service + "': "@ + reason,
        FetchErrorV::ExecutionFieldNotFound { field } => "Subquery requires field '"@ + field + "' but it was not found in the current response."@,
        FetchErrorV::ExecutionInvalidContent { reason } => "Invalid content: "@ + reason,
        FetchErrorV::ExecutionPathNotFound { reason } => "Could find path: "@ + reason,
    }
}

/// The name of each kind: the `type` discriminator carried in extensions.
pub open spec fn kind_name_spec(e: FetchErrorV) -> Seq<char> {
    match e {
        FetchErrorV::ValidationUnknownServiceError { .. } => "ValidationUnknownServiceError"@,
        FetchErrorV::ValidationMissingVariable { .. } => "ValidationMissingVariable"@,
        FetchErrorV::ValidationPlanningError { .. } => "ValidationPlanningError"@,
        FetchErrorV::MalformedResponse { .. } => "MalformedResponse"@,
        FetchErrorV::SubrequestNoResponse { .. } => "SubrequestNoResponse"@,
        FetchErrorV::SubrequestMalformedResponse { .. } => "SubrequestMalformedResponse"@,
        FetchErrorV::SubrequestUnexpectedPatchResponse { .. } => "SubrequestUnexpectedPatchResponse"@,
        FetchErrorV::SubrequestHttpError { .. } => "SubrequestHttpError"@,
        FetchErrorV::ExecutionFieldNotFound { .. } => "ExecutionFieldNotFound"@,
        FetchErrorV::ExecutionInvalidContent { .. } => "ExecutionInvalidContent"@,
        FetchErrorV::ExecutionPathNotFound { .. } => "ExecutionPathNotFound"@,
    }
}

/// The flattening of a failure value into the open extensions map: the
/// `type` discriminator first, then every field of the kind, verbatim.
pub open spec fn extensions_spec(e: FetchErrorV) -> Seq<(Seq<char>, JsonV)> {
    seq![("type"@, JsonV::Str(kind_name_spec(e)))] + match e {
        FetchErrorV::ValidationUnknownServiceError { service } => seq![("service"@, JsonV::Str(service))],
        FetchErrorV::ValidationMissingVariable { name } => seq![("name"@, JsonV::Str(name))],
        FetchErrorV::ValidationPlanningError { reason } => seq![("reason"@, JsonV::Str(reason))],
        FetchErrorV::MalformedResponse { reason } => seq![("reason"@, JsonV::Str(reason))],
        FetchErrorV::SubrequestNoResponse { service } => seq![("service"@, JsonV::Str(service))],
        FetchErrorV::SubrequestMalformedResponse { service, reason } => seq![("service"@, JsonV::Str(service)), ("reason"@, JsonV::Str(reason))],
        FetchErrorV::SubrequestUnexpectedPatchResponse { service } => seq![("service"@, JsonV::Str(service))],
        FetchErrorV::SubrequestHttpError { service, reason } => seq![("service"@, JsonV::Str(service)), ("reason"@, JsonV::Str(reason))],
        FetchErrorV::ExecutionFieldNotFound { field } => seq![("field"@, JsonV::Str(field))],
        FetchErrorV::ExecutionInvalidContent { reason } => seq![("reason"@, JsonV::Str(reason))],
        FetchErrorV::ExecutionPathNotFound { reason } => seq![("reason"@, JsonV::Str(reason))],
    }
}

/// Model of a list of failures.
pub open spec fn fetch_errors_view(v: Seq<FetchError>) -> Seq<FetchErrorV> {
    Seq::new(v.len(), |i: int| v[i]@)
}

/// A position in the originating client query text, 1-based.
#[derive(Debug, Clone, Copy, PartialEq, Eq, Structural)]
pub struct Location {
    pub line: i32,
    pub column: i32,
}

/// Mathematical model of a wire-level error object.
#[verifier::ext_equal]
pub struct GraphQLErrorV {
    pub message: Seq<char>,
    pub locations: Seq<Location>,
    pub path: Seq<SegV>,
    pub extensions: Seq<(Seq<char>, JsonV)>,
}

/// A spec-compliant error object: message, source locations, the path of
/// the field that produced the failure, and an open extensions map.
#[derive(Debug)]
pub struct GraphQLError {
    pub message: String,
    pub locations: Vec<Location>,
    pub path: Path,
    pub extensions: Vec<(String, Json)>,
}

impl View for GraphQLError {
    type V = GraphQLErrorV;

    open spec fn view(&self) -> GraphQLErrorV {
        GraphQLErrorV {
            message: self.message@,
            locations: self.locations@,
            path: self.path@,
            extensions: entries_view(self.extensions@),
        }
    }
}

/// Mathematical model of a wire-level response envelope.
#[verifier::ext_equal]
pub struct GraphQLResponseV {
    pub label: Option<Seq<char>>,
    pub data: Option<JsonV>,
    pub path: Option<Seq<SegV>>,
    pub has_next: Option<bool>,
    pub errors: Seq<GraphQLErrorV>,
    pub extensions: Seq<(Seq<char>, JsonV)>,
}

/// The wire-level response envelope. `has_next` signals incremental
/// delivery: `Some(true)` means more patches follow, `Some(false)` means
/// this is the terminal message, `None` means single-shot delivery.
#[derive(Debug)]
pub struct GraphQLResponse {
    pub label: Option<String>,
    pub data: Option<Json>,
    pub path: Option<Path>,
    pub has_next: Option<bool>,
    pub errors: Vec<GraphQLError>,
    pub extensions: Vec<(String, Json)>,
}

/// Model of a list of error objects.
pub open spec fn errors_view(v: Seq<GraphQLError>) -> Seq<GraphQLErrorV> {
    Seq::new(v.len(), |i: int| v[i]@)
}

impl View for GraphQLResponse {
    type V = GraphQLResponseV;

    open spec fn view(&self) -> GraphQLResponseV {
        GraphQLResponseV {
            label: match self.label {
                Some(ref s) => Some(s@),
                None => None,
            },
            data: match self.data {
                Some(ref d) => Some(d@),
                None => None,
            },
            path: match self.path {
                Some(ref p) => Some(p@),
                None => None,
            },
            has_next: self.has_next,
            errors: errors_view(self.errors@),
            extensions: entries_view(self.extensions@),
        }
    }
}

/// What converting a failure to an error object yields: the kind's message
/// template, no locations, the supplied path or the empty one, and the
/// flattened failure as extensions.
pub open spec fn to_graphql_error_spec(e: FetchErrorV, path: Option<Seq<SegV>>) -> GraphQLErrorV {
    GraphQLErrorV {
        message: message_spec(e),
        locations: Seq::empty(),
        path: match path {
            Some(p) => p,
            None => Seq::empty(),
        },
        extensions: extensions_spec(e),
    }
}

/// What converting a failure to a whole response yields: no data, no path,
/// exactly one error, and `has_next` only when the failed response is the
/// primary one of a stream (the stream is then declared terminal).
pub open spec fn to_response_spec(e: FetchErrorV, primary: bool) -> GraphQLResponseV {
    GraphQLResponseV {
        label: None,
        data: None,
        path: None,
        has_next: if primary {
            Some(false)
        } else {
            None
        },
        errors: seq![to_graphql_error_spec(e, None)],
        extensions: Seq::empty(),
    }
}

impl FetchError {
    /// The canonical human-readable message of this failure.
    pub fn message(&self) -> (r: String)
        ensures
            r@ == message_spec(self@),
    {
        match self {
            FetchError::ValidationUnknownServiceError { service } => {
                let mut m = String::from_str("Query references unknown service '");
                m.append(service.as_str());
                m.append("'.");
                m
            },
            FetchError::ValidationMissingVariable { name } => {
                let mut m = String::from_str("Query requires variable '");
                m.append(name.as_str());
                m.append("', but it was not provided.");
                m
            },
            FetchError::ValidationPlanningError { reason } => {
                let mut m = String::from_str("Query could not be planned: ");
                m.append(reason.as_str());
                m
            },
            FetchError::MalformedResponse { reason } => {
                let mut m = String::from_str("Response was malformed: ");
                m.append(reason.as_str());
                m
            },
            FetchError::SubrequestNoResponse { service } => {
                let mut m = String::from_str("Service '");
                m.append(service.as_str());
                m.append("' returned no response.");
                m
            },
            FetchError::SubrequestMalformedResponse { service, reason } => {
                let mut m = String::from_str("Service '");
                m.append(service.as_str());
                m.append("' response was malformed: ");
                m.append(reason.as_str());
                m
            },
            FetchError::SubrequestUnexpectedPatchResponse { service } => {
                let mut m = String::from_str("Service '");
                m.append(service.as_str());
                m.append("' returned a PATCH response which was not expected.");
                m
            },
            FetchError::SubrequestHttpError { service, reason } => {
                let mut m = String::from_str("HTTP fetch failed from '");
                m.append(service.as_str());
                m.append("': ");
                m.append(reason.as_str());
                m
            },
            FetchError::ExecutionFieldNotFound { field } => {
                let mut m = String::from_str("Subquery requires field '");
                m.append(field.as_str());
                m.append("' but it was not found in the current response.");
                m
            },
            FetchError::ExecutionInvalidContent { reason } => {
                let mut m = String::from_str("Invalid content: ");
                m.append(reason.as_str());
                m
            },
            FetchError::ExecutionPathNotFound { reason } => {
                let mut m = String::from_str("Could find path: ");
                m.append(reason.as_str());
                m
            },
        }
    }

    /// The name of this failure's kind, as carried in `extensions["type"]`.
    pub fn kind_name(&self) -> (r: String)
        ensures
            r@ == kind_name_spec(self@),
    {
        match self {
            FetchError::ValidationUnknownServiceError { .. } => String::from_str("ValidationUnknownServiceError"),
            FetchError::ValidationMissingVariable { .. } => String::from_str("ValidationMissingVariable"),
            FetchError::ValidationPlanningError { .. } => String::from_str("ValidationPlanningError"),
            FetchError::MalformedResponse { .. } => String::from_str("MalformedResponse"),
            FetchError::SubrequestNoResponse { .. } => String::from_str("SubrequestNoResponse"),
            FetchError::SubrequestMalformedResponse { .. } => String::from_str("SubrequestMalformedResponse"),
            FetchError::SubrequestUnexpectedPatchResponse { .. } => String::from_str("SubrequestUnexpectedPatchResponse"),
            FetchError::SubrequestHttpError { .. } => String::from_str("SubrequestHttpError"),
            FetchError::ExecutionFieldNotFound { .. } => String::from_str("ExecutionFieldNotFound"),
            FetchError::ExecutionInvalidContent { .. } => String::from_str("ExecutionInvalidContent"),
            FetchError::ExecutionPathNotFound { .. } => String::from_str("ExecutionPathNotFound"),
        }
    }

    /// This failure flattened into an open extensions map: the `type`
    /// discriminator, then every field of the kind, verbatim.
    pub fn extensions(&self) -> (r: Vec<(String, Json)>)
        ensures
            entries_view(r@) == extensions_spec(self@),
    {
        let mut v: Vec<(String, Json)> = Vec::new();
        v.push((String::from_str("type"), Json::Str(self.kind_name())));
        match self {
            FetchError::ValidationUnknownServiceError { service } => {
                v.push((String::from_str("service"), Json::Str(service.clone())));
            },
            FetchError::ValidationMissingVariable { name } => {
                v.push((String::from_str("name"), Json::Str(name.clone())));
            },
            FetchError::ValidationPlanningError { reason } => {
                v.push((String::from_str("reason"), Json::Str(reason.clone())));
            },
            FetchError::MalformedResponse { reason } => {
                v.push((String::from_str("reason"), Json::Str(reason.clone())));
            },
            FetchError::SubrequestNoResponse { service } => {
                v.push((String::from_str("service"), Json::Str(service.clone())));
            },
            FetchError::SubrequestMalformedResponse { service, reason } => {
                v.push((String::from_str("service"), Json::Str(service.clone())));
                v.push((String::from_str("reason"), Json::Str(reason.clone())));
            },
            FetchError::SubrequestUnexpectedPatchResponse { service } => {
                v.push((String::from_str("service"), Json::Str(service.clone())));
            },
            FetchError::SubrequestHttpError { service, reason } => {
                v.push((String::from_str("service"), Json::Str(service.clone())));
                v.push((String::from_str("reason"), Json::Str(reason.clone())));
            },
            FetchError::ExecutionFieldNotFound { field } => {
                v.push((String::from_str("field"), Json::Str(field.clone())));
            },
            FetchError::ExecutionInvalidContent { reason } => {
                v.push((String::from_str("reason"), Json::Str(reason.clone())));
            },
            FetchError::ExecutionPathNotFound { reason } => {
                v.push((String::from_str("reason"), Json::Str(reason.clone())));
            },
        }
        proof {
            assert(entries_view(v@) =~= extensions_spec(self@));
        }
        v
    }

    /// Convert this failure to a wire-level error object at the given path.
    pub fn to_graphql_error(&self, path: Option<Path>) -> (r: GraphQLError)
        ensures
            r@ == to_graphql_error_spec(
                self@,
                match path {
                    Some(p) => Some(p@),
                    None => None,
                },
            ),
    {
        let p = match path {
            Some(p) => p,
            None => Path::empty(),
        };
        let r = GraphQLError {
            message: self.message(),
            locations: Vec::new(),
            path: p,
            extensions: self.extensions(),
        };
        proof {
            assert(r@ =~= to_graphql_error_spec(
                self@,
                match path {
                    Some(p) => Some(p@),
                    None => None,
                },
            ));
        }
        r
    }

    /// Convert this failure to a whole response: the error is the entire
    /// payload. `primary` says whether the failed response would have been
    /// the primary one of a stream; only then is the stream declared
    /// terminal with `has_next == Some(false)`.
    pub fn to_response(&self, primary: bool) -> (r: GraphQLResponse)
        ensures
            r@ == to_response_spec(self@, primary),
    {
        let r = GraphQLResponse {
            label: None,
            data: None,
            path: None,
            has_next: if primary {
                Some(false)
            } else {
                None
            },
            errors: {
                let mut es: Vec<GraphQLError> = Vec::new();
                es.push(self.to_graphql_error(None));
                es
            },
            extensions: Vec::new(),
        };
        proof {
            assert(r@.errors =~= to_response_spec(self@, primary).errors);
            assert(r@.extensions =~= to_response_spec(self@, primary).extensions);
            assert(r@ =~= to_response_spec(self@, primary));
        }
        r
    }
}

/// Lookup in a two-entry map with distinct keys.
proof fn lemma_obj_get_two(k0: Seq<char>, v0: JsonV, k1: Seq<char>, v1: JsonV)
    requires
        k0 != k1,
    ensures
        obj_get(seq![(k0, v0), (k1, v1)], k0) == Some(v0),
        obj_get(seq![(k0, v0), (k1, v1)], k1) == Some(v1),
{
    let es = seq![(k0, v0), (k1, v1)];
    assert(es.skip(1) =~= seq![(k1, v1)]);
    assert(crate::json::first_key_index(seq![(k1, v1)], k1) == 0);
    assert(crate::json::first_key_index(es, k1) == 1);
}

/// Lookup in a three-entry map with distinct keys.
proof fn lemma_obj_get_three(
    k0: Seq<char>,
    v0: JsonV,
    k1: Seq<char>,
    v1: JsonV,
    k2: Seq<char>,
    v2: JsonV,
)
    requires
        k0 != k1,
        k0 != k2,
        k1 != k2,
    ensures
        obj_get(seq![(k0, v0), (k1, v1), (k2, v2)], k0) == Some(v0),
        obj_get(seq![(k0, v0), (k1, v1), (k2, v2)], k1) == Some(v1),
        obj_get(seq![(k0, v0), (k1, v1), (k2, v2)], k2) == Some(v2),
{
    let es = seq![(k0, v0), (k1, v1), (k2, v2)];
    assert(es.skip(1) =~= seq![(k1, v1), (k2, v2)]);
    assert(es.skip(1).skip(1) =~= seq![(k2, v2)]);
    assert(crate::json::first_key_index(seq![(k1, v1), (k2, v2)], k1) == 0);
    assert(crate::json::first_key_index(es, k1) == 1);
    assert(crate::json::first_key_index(seq![(k2, v2)], k2) == 0);
    assert(crate::json::first_key_index(seq![(k1, v1), (k2, v2)], k2) == 1);
    assert(crate::json::first_key_index(es, k2) == 2);
}

/// Law: the extensions of any failure carry the kind's name under the
/// `type` key, and each field of the failure, verbatim, under its own
/// name.
pub proof fn lemma_extensions_carry_kind(e: FetchErrorV)
    ensures
        obj_get(extensions_spec(e), "type"@) == Some(JsonV::Str(kind_name_spec(e))),
        match e {
            FetchErrorV::ValidationUnknownServiceError { service } => obj_get(
                extensions_spec(e),
                "service"@,
            ) == Some(JsonV::Str(service)),
            FetchErrorV::ValidationMissingVariable { name } => obj_get(extensions_spec(e), "name"@)
                == Some(JsonV::Str(name)),
            FetchErrorV::ValidationPlanningError { reason } => obj_get(
                extensions_spec(e),
                "reason"@,
            ) == Some(JsonV::Str(reason)),
            FetchErrorV::MalformedResponse { reason } => obj_get(extensions_spec(e), "reason"@)
                == Some(JsonV::Str(reason)),
            FetchErrorV::SubrequestNoResponse { service } => obj_get(
                extensions_spec(e),
                "service"@,
            ) == Some(JsonV::Str(service)),
            FetchErrorV::SubrequestMalformedResponse { service, reason } => obj_get(
                extensions_spec(e),
                "service"@,
            ) == Some(JsonV::Str(service)) && obj_get(extensions_spec(e), "reason"@) == Some(
                JsonV::Str(reason),
            ),
            FetchErrorV::SubrequestUnexpectedPatchResponse { service } => obj_get(
                extensions_spec(e),
                "service"@,
            ) == Some(JsonV::Str(service)),
            FetchErrorV::SubrequestHttpError { service, reason } => obj_get(
                extensions_spec(e),
                "service"@,
            ) == Some(JsonV::Str(service)) && obj_get(extensions_spec(e), "reason"@) == Some(
                JsonV::Str(reason),
            ),
            FetchErrorV::ExecutionFieldNotFound { field } => obj_get(extensions_spec(e), "field"@)
                == Some(JsonV::Str(field)),
            FetchErrorV::ExecutionInvalidContent { reason } => obj_get(
                extensions_spec(e),
                "reason"@,
            ) == Some(JsonV::Str(reason)),
            FetchErrorV::ExecutionPathNotFound { reason } => obj_get(extensions_spec(e), "reason"@)
                == Some(JsonV::Str(reason)),
        },
{
    reveal_strlit("type");
    reveal_strlit("service");
    reveal_strlit("name");
    reveal_strlit("reason");
    reveal_strlit("field");
    assert("type"@.len() == 4 && "service"@.len() == 7 && "name"@.len() == 4 && "reason"@.len()
        == 6 && "field"@.len() == 5);
    assert("type"@[0] == 't' && "name"@[0] == 'n');
    let tk = "type"@;
    let tv = JsonV::Str(kind_name_spec(e));
    match e {
        FetchErrorV::ValidationUnknownServiceError { service } => {
            assert(extensions_spec(e) =~= seq![(tk, tv), ("service"@, JsonV::Str(service))]);
            lemma_obj_get_two(tk, tv, "service"@, JsonV::Str(service));
        },
        FetchErrorV::ValidationMissingVariable { name } => {
            assert(extensions_spec(e) =~= seq![(tk, tv), ("name"@, JsonV::Str(name))]);
            lemma_obj_get_two(tk, tv, "name"@, JsonV::Str(name));
        },
        FetchErrorV::ValidationPlanningError { reason } => {
            assert(extensions_spec(e) =~= seq![(tk, tv), ("reason"@, JsonV::Str(reason))]);
            lemma_obj_get_two(tk, tv, "reason"@, JsonV::Str(reason));
        },
        FetchErrorV::MalformedResponse { reason } => {
            assert(extensions_spec(e) =~= seq![(tk, tv), ("reason"@, JsonV::Str(reason))]);
            lemma_obj_get_two(tk, tv, "reason"@, JsonV::Str(reason));
        },
        FetchErrorV::SubrequestNoResponse { service } => {
            assert(extensions_spec(e) =~= seq![(tk, tv), ("service"@, JsonV::Str(service))]);
            lemma_obj_get_two(tk, tv, "service"@, JsonV::Str(service));
        },
        FetchErrorV::SubrequestMalformedResponse { service, reason } => {
            assert(extensions_spec(e) =~= seq![
                (tk, tv),
                ("service"@, JsonV::Str(service)),
                ("reason"@, JsonV::Str(reason)),
            ]);
            lemma_obj_get_three(
                tk,
                tv,
                "service"@,
                JsonV::Str(service),
                "reason"@,
                JsonV::Str(reason),
            );
        },
        FetchErrorV::SubrequestUnexpectedPatchResponse { service } => {
            assert(extensions_spec(e) =~= seq![(tk, tv), ("service"@, JsonV::Str(service))]);
            lemma_obj_get_two(tk, tv, "service"@, JsonV::Str(service));
        },
        FetchErrorV::SubrequestHttpError { service, reason } => {
            assert(extensions_spec(e) =~= seq![
                (tk, tv),
                ("service"@, JsonV::Str(service)),
                ("reason"@, JsonV::Str(reason)),
            ]);
            lemma_obj_get_three(
                tk,
                tv,
                "service"@,
                JsonV::Str(service),
                "reason"@,
                JsonV::Str(reason),
            );
        },
        FetchErrorV::ExecutionFieldNotFound { field } => {
            assert(extensions_spec(e) =~= seq![(tk, tv), ("field"@, JsonV::Str(field))]);
            lemma_obj_get_two(tk, tv, "field"@, JsonV::Str(field));
        },
        FetchErrorV::ExecutionInvalidContent { reason } => {
            assert(extensions_spec(e) =~= seq![(tk, tv), ("reason"@, JsonV::Str(reason))]);
            lemma_obj_get_two(tk, tv, "reason"@, JsonV::Str(reason));
        },
        FetchErrorV::ExecutionPathNotFound { reason } => {
            assert(extensions_spec(e) =~= seq![(tk, tv), ("reason"@, JsonV::Str(reason))]);
            lemma_obj_get_two(tk, tv, "reason"@, JsonV::Str(reason));
        },
    }
}

} // verus!
