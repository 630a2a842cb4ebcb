//! The subgraph fetcher's decision core: classifying what the transport
//! observed for one subrequest, and validating a fetch before it is
//! attempted.
//!
//! The transport itself lives outside this crate; it reports what happened
//! as plain values, and every classification decision is made here. No
//! failure is raised: all failures are returned as values.

use vstd::prelude::*;
use crate::json::{Json, JsonV, entries_view, names_view, obj_has_key};
use crate::error::{FetchError, FetchErrorV};

verus! {

/// Mathematical model of a transport observation.
pub enum FetchedBodyV {
    NoResponse,
    TransportFailure { reason: Seq<char> },
    Malformed { reason: Seq<char> },
    Single { data: JsonV },
    Patch { data: JsonV },
}

/// What the transport observed for one subrequest, as plain values.
#[derive(Debug)]
pub enum FetchedBody {
    /// No response was received at all.
    NoResponse,
    /// The transport failed: connection, timeout, or a non-success status.
    TransportFailure { reason: String },
    /// A body arrived but could not be read into the expected shape.
    Malformed { reason: String },
    /// A complete single response body.
    Single { data: Json },
    /// An incremental patch fragment.
    Patch { data: Json },
}

impl View for FetchedBody {
    type V = FetchedBodyV;

    open spec fn view(&self) -> FetchedBodyV {
        match self {
            FetchedBody::NoResponse => FetchedBodyV::NoResponse,
            FetchedBody::TransportFailure { reason } => FetchedBodyV::TransportFailure { reason: reason@ },
            FetchedBody::Malformed { reason } => FetchedBodyV::Malformed { reason: reason@ },
            FetchedBody::Single { data } => FetchedBodyV::Single { data: data@ },
            FetchedBody::Patch { data } => FetchedBodyV::Patch { data: data@ },
        }
    }
}

/// The exact classification of one transport observation: a parsed partial
/// response, or the one failure kind the observation falls under. A patch
/// fragment is usable only when the subrequest was issued as a streaming
/// request.
pub open spec fn classify_model(service: Seq<char>, body: FetchedBodyV, streaming: bool) -> Result<
    JsonV,
    FetchErrorV,
> {
    match body {
        FetchedBodyV::NoResponse => Err(FetchErrorV::SubrequestNoResponse { service }),
        FetchedBodyV::TransportFailure { reason } => Err(
            FetchErrorV::SubrequestHttpError { service, reason },
        ),
        FetchedBodyV::Malformed { reason } => Err(
            FetchErrorV::SubrequestMalformedResponse { service, reason },
        ),
        FetchedBodyV::Single { data } => Ok(data),
        FetchedBodyV::Patch { data } => if streaming {
            Ok(data)
        } else {
            Err(FetchErrorV::SubrequestUnexpectedPatchResponse { service })
        },
    }
}

/// Model of a fetch outcome.
pub open spec fn outcome_view(r: Result<Json, FetchError>) -> Result<JsonV, FetchErrorV> {
    match r {
        Ok(d) => Ok(d@),
        Err(e) => Err(e@),
    }
}

/// Classify what the transport observed for one subrequest against
/// `service`, exactly as `classify_model` says.
pub fn classify_fetch(service: &String, body: FetchedBody, streaming: bool) -> (r: Result<
    Json,
    FetchError,
>)
    ensures
        outcome_view(r) == classify_model(service@, body@, streaming),
{
    match body {
        FetchedBody::NoResponse => Err(FetchError::SubrequestNoResponse { service: service.clone() }),
        FetchedBody::TransportFailure { reason } => Err(
            FetchError::SubrequestHttpError { service: service.clone(), reason },
        ),
        FetchedBody::Malformed { reason } => Err(
            FetchError::SubrequestMalformedResponse { service: service.clone(), reason },
        ),
        FetchedBody::Single { data } => Ok(data),
        FetchedBody::Patch { data } => if streaming {
            Ok(data)
        } else {
            Err(FetchError::SubrequestUnexpectedPatchResponse { service: service.clone() })
        },
    }
}

/// Whether a list of names holds `n`.
pub open spec fn contains_name(ns: Seq<Seq<char>>, n: Seq<char>) -> bool {
    exists|i: int| 0 <= i < ns.len() && ns[i] == n
}

/// Position of the first variable in `need` that `have` does not bind, or
/// `-1` when every one is bound.
pub open spec fn first_missing_var(need: Seq<Seq<char>>, have: Seq<(Seq<char>, JsonV)>) -> int
    decreases need.len(),
{
    if need.len() == 0 {
        -1
    } else if !obj_has_key(have, need[0]) {
        0
    } else {
        let r = first_missing_var(need.skip(1), have);
        if r == -1 {
            -1
        } else {
            r + 1
        }
    }
}

/// `first_missing_var` yields `-1` or a position.
proof fn lemma_first_missing_var_range(need: Seq<Seq<char>>, have: Seq<(Seq<char>, JsonV)>)
    ensures
        first_missing_var(need, have) == -1 || 0 <= first_missing_var(need, have) < need.len(),
    decreases need.len(),
{
    if need.len() == 0 {
    } else if !obj_has_key(have, need[0]) {
    } else {
        lemma_first_missing_var_range(need.skip(1), have);
    }
}

/// The exact validation of a fetch before it is attempted: the service
/// must be known, and every variable the subquery requires must be bound.
pub open spec fn validate_model(
    service: Seq<char>,
    known: Seq<Seq<char>>,
    need: Seq<Seq<char>>,
    have: Seq<(Seq<char>, JsonV)>,
) -> Option<FetchErrorV> {
    if !contains_name(known, service) {
        Some(FetchErrorV::ValidationUnknownServiceError { service })
    } else {
        let m = first_missing_var(need, have);
        if m == -1 {
            None
        } else {
            Some(FetchErrorV::ValidationMissingVariable { name: need[m] })
        }
    }
}

/// Whether `ns` holds the name `n`.
#[verifier::loop_isolation(false)]
pub fn names_contain(ns: &Vec<String>, n: &String) -> (r: bool)
    ensures
        r == contains_name(names_view(ns@), n@),
{
    let mut i: usize = 0;
    while i < ns.len()
        invariant
            i <= ns.len(),
            forall|j: int| 0 <= j < i ==> names_view(ns@)[j] != n@,
        decreases ns.len() - i,
    {
        if ns[i] == *n {
            proof {
                assert(names_view(ns@)[i as int] == n@);
            }
            return true;
        }
        i += 1;
    }
    false
}

/// Whether the bindings hold a value for the name `n`.
#[verifier::loop_isolation(false)]
pub fn bindings_contain(have: &Vec<(String, Json)>, n: &String) -> (r: bool)
    ensures
        r == obj_has_key(entries_view(have@), n@),
{
    let mut i: usize = 0;
    while i < have.len()
        invariant
            i <= have.len(),
            forall|j: int| 0 <= j < i ==> entries_view(have@)[j].0 != n@,
        decreases have.len() - i,
    {
        if have[i].0 == *n {
            proof {
                assert(entries_view(have@)[i as int].0 == n@);
            }
            return true;
        }
        i += 1;
    }
    false
}

/// Validate a fetch against the known services and the bound variables,
/// exactly as `validate_model` says.
#[verifier::loop_isolation(false)]
pub fn validate_fetch(
    service: &String,
    known: &Vec<String>,
    need: &Vec<String>,
    have: &Vec<(String, Json)>,
) -> (r: Option<FetchError>)
    ensures
        ({
            let m = validate_model(service@, names_view(known@), names_view(need@), entries_view(have@));
            match r {
                Some(e) => m == Some(e@),
                None => m is None,
            }
        }),
{
    if !names_contain(known, service) {
        return Some(FetchError::ValidationUnknownServiceError { service: service.clone() });
    }
    let ghost needv = names_view(need@);
    let ghost havev = entries_view(have@);
    proof {
        assert(needv.skip(0) =~= needv);
    }
    let mut i: usize = 0;
    while i < need.len()
        invariant
            i <= need.len(),
            first_missing_var(needv, havev) == ({
                let r = first_missing_var(needv.skip(i as int), havev);
                if r == -1 {
                    -1int
                } else {
                    r + i
                }
            }),
            forall|j: int| 0 <= j < i ==> obj_has_key(havev, needv[j]),
        decreases need.len() - i,
    {
        proof {
            assert(needv.skip(i as int)[0] == needv[i as int]);
            assert(needv.skip(i as int).skip(1) =~= needv.skip(i as int + 1));
        }
        if !bindings_contain(have, &need[i]) {
            return Some(FetchError::ValidationMissingVariable { name: need[i].clone() });
        }
        proof {
            lemma_first_missing_var_range(needv.skip(i as int + 1), havev);
            assert(obj_has_key(havev, needv.skip(i as int)[0]));
            assert(first_missing_var(needv.skip(i as int), havev) == ({
                let r2 = first_missing_var(needv.skip(i as int + 1), havev);
                if r2 == -1 {
                    -1int
                } else {
                    r2 + 1
                }
            }));
        }
        i += 1;
    }
    proof {
        assert(needv.skip(need@.len() as int) =~= Seq::<Seq<char>>::empty());
    }
    None
}

} // verus!
