//! Decisions of the thin HTTP boundary around the coordinator: the
//! configuration update that repoints the analysis service, the
//! acknowledgement shapes of the device management calls, and the token
//! body of the login stub.

use vstd::prelude::*;

use crate::coordinator::now_timestamp;
use crate::types::{TestResult, Urls};

verus! {

/// The response body handed back after a successful login: the signed
/// token and its scheme.
#[derive(Debug, PartialEq)]
pub struct AuthBody {
    pub access_token: String,
    pub token_type: String,
}

impl AuthBody {
    /// Wraps a signed token with the bearer scheme.
    pub fn new(access_token: String) -> (r: Self)
        ensures
            r.access_token@ == access_token@,
            r.token_type@ == "Bearer"@,
    {
        AuthBody { access_token, token_type: String::from_str("Bearer") }
    }
}

/// Rejects a configuration update that carries an empty analysis-service
/// URL; accepts any other.
pub fn backend_urls_rejection(urls: &Urls) -> (r: Option<TestResult>)
    ensures
        r is Some <==> urls.image_server_url@.len() == 0,
        r matches Some(t) ==> t.info@ == "Image server URL cannot be empty"@ && t.status == 0,
{
    if urls.image_server_url.as_str().is_empty() {
        Some(
            TestResult {
                time: now_timestamp(),
                info: String::from_str("Image server URL cannot be empty"),
                status: 0,
            },
        )
    } else {
        None
    }
}

/// The acknowledgement of a configuration update, from the store write's
/// outcome: success reports status 1, a store error reports status 0 with
/// the error in the message.
pub fn backend_urls_outcome(store: Result<(), String>) -> (r: TestResult)
    ensures
        store is Ok ==> r.status == 1 && r.info@ == Seq::<char>::empty(),
        store matches Err(e) ==> r.status == 0 && r.info@ == "Redis error: "@ + e@,
{
    match store {
        Ok(_) => TestResult { time: now_timestamp(), info: String::new(), status: 1 },
        Err(e) => {
            let mut info = String::from_str("Redis error: ");
            info.append(e.as_str());
            TestResult { time: now_timestamp(), info, status: 0 }
        },
    }
}

/// The acknowledgement of a device status update, from the stored
/// procedure's own status text: only `"1"` reports success.
pub fn rover_update_result(status: &str) -> (r: TestResult)
    ensures
        status@ == "1"@ ==> r.status == 1 && r.info@ == "success"@,
        status@ != "1"@ ==> r.status == 0 && r.info@ == "fail"@,
        r.time@ == Seq::<char>::empty(),
{
    if crate::text::str_eq(status, "1") {
        TestResult { time: String::new(), info: String::from_str("success"), status: 1 }
    } else {
        TestResult { time: String::new(), info: String::from_str("fail"), status: 0 }
    }
}

/// The acknowledgement of a device registration, from the stored
/// procedure's boolean outcome.
pub fn rover_creation_result(created: bool) -> (r: TestResult)
    ensures
        created ==> r.status == 1 && r.info@ == "success"@,
        !created ==> r.status == 0 && r.info@ == "fail"@,
        r.time@ == Seq::<char>::empty(),
{
    if created {
        TestResult { time: String::new(), info: String::from_str("success"), status: 1 }
    } else {
        TestResult { time: String::new(), info: String::from_str("fail"), status: 0 }
    }
}

} // verus!
