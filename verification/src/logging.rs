//! Request log events. The clock is read, and the events written, by the
//! caller; the events themselves are assembled here.

use vstd::prelude::*;
use crate::contracts::{RuntimeStatus, Timeframe};
use crate::digest::{digest_text, sha256_text};
use crate::service::timeframe_name;
use vstd::string::StringSliceAdditionalSpecFns;

verus! {

/// A request arrived.
#[derive(Debug, Clone)]
pub struct RequestReceived {
    pub event: &'static str,
    pub timestamp: String,
    pub request_id: String,
    pub endpoint: String,
    pub asset: Option<String>,
    pub requested_timeframes: Option<Vec<String>>,
    pub user_agent: Option<String>,
    pub request_body_sha256: String,
}

/// A request was answered.
#[derive(Debug, Clone)]
pub struct RequestServed {
    pub event: &'static str,
    pub timestamp: String,
    pub request_id: String,
    pub http_status: u16,
    pub pramagraph_status: String,
    pub asset: Option<String>,
    pub returned_timeframes: Option<Vec<String>>,
    pub elapsed_ms: u64,
    pub response_sha256: Option<String>,
}

/// A request failed.
#[derive(Debug, Clone)]
pub struct RequestFailed {
    pub event: &'static str,
    pub timestamp: String,
    pub request_id: String,
    pub http_status: u16,
    pub error: String,
    pub elapsed_ms: u64,
}

/// The names of the timeframes, in order.
pub open spec fn timeframe_names(timeframes: Seq<Timeframe>) -> Seq<Seq<char>> {
    timeframes.map_values(|t: Timeframe| timeframe_name(t)@)
}

/// The names of a list of timeframes, when there is one.
pub open spec fn optional_names_are(
    names: Option<Vec<String>>,
    timeframes: Option<Vec<Timeframe>>,
) -> bool {
    match timeframes {
        Some(t) => names matches Some(n) && n@.map_values(|s: String| s@) == timeframe_names(t@),
        None => names is None,
    }
}

fn names_of(timeframes: Option<Vec<Timeframe>>) -> (r: Option<Vec<String>>)
    ensures
        optional_names_are(r, timeframes),
{
    match timeframes {
        None => None,
        Some(list) => {
            let n = list.len();
            let mut names: Vec<String> = Vec::new();
            let mut i: usize = 0;
            while i < n
                invariant
                    n == list@.len(),
                    i <= n,
                    names@.len() == i,
                    names@.map_values(|s: String| s@) =~= timeframe_names(list@.subrange(0, i as int)),
                decreases n - i,
            {
                let name = timeframe_name(list[i]).to_owned();
                let ghost before = names@;
                names.push(name);
                proof {
                    let sub = list@.subrange(0, i + 1);
                    assert(sub[i as int] == list@[i as int]);
                    assert(names@[i as int]@ == timeframe_name(sub[i as int])@);
                    assert(forall|k: int| 0 <= k < i ==> names@[k] == before[k]);
                    let prev = list@.subrange(0, i as int);
                    assert forall|k: int| 0 <= k < i implies names@.map_values(|s: String| s@)[k]
                        == timeframe_names(sub)[k] by {
                        assert(sub[k] == prev[k]);
                        assert(before.map_values(|s: String| s@)[k] == timeframe_names(prev)[k]);
                    }
                    assert(names@.map_values(|s: String| s@) =~= timeframe_names(sub));
                }
                i = i + 1;
            }
            assert(list@.subrange(0, n as int) =~= list@);
            Some(names)
        },
    }
}

/// The name under which a runtime status is logged.
#[verifier::allow_in_spec]
pub fn runtime_status_name(status: RuntimeStatus) -> &'static str
    returns
        (match status {
            RuntimeStatus::Okay => "Ok",
            RuntimeStatus::Bootstrapping => "Bootstrapping",
            RuntimeStatus::Unresolved => "Unresolved",
            RuntimeStatus::InsufficientData => "InsufficientData",
            RuntimeStatus::InsufficientCalibration => "InsufficientCalibration",
            RuntimeStatus::StaleData => "StaleData",
            RuntimeStatus::ProviderDivergence => "ProviderDivergence",
            RuntimeStatus::AmbiguousAsset => "AmbiguousAsset",
            RuntimeStatus::UnsupportedAsset => "UnsupportedAsset",
            RuntimeStatus::EngineError => "EngineError",
        }),
{
    match status {
        RuntimeStatus::Okay => "Ok",
        RuntimeStatus::Bootstrapping => "Bootstrapping",
        RuntimeStatus::Unresolved => "Unresolved",
        RuntimeStatus::InsufficientData => "InsufficientData",
        RuntimeStatus::InsufficientCalibration => "InsufficientCalibration",
        RuntimeStatus::StaleData => "StaleData",
        RuntimeStatus::ProviderDivergence => "ProviderDivergence",
        RuntimeStatus::AmbiguousAsset => "AmbiguousAsset",
        RuntimeStatus::UnsupportedAsset => "UnsupportedAsset",
        RuntimeStatus::EngineError => "EngineError",
    }
}

impl RequestReceived {
    /// The event for a request, stamped with `timestamp`; the body is kept
    /// only as the digest of its UTF-8 bytes.
    pub fn new(
        request_id: String,
        endpoint: String,
        asset: Option<String>,
        requested_timeframes: Option<Vec<Timeframe>>,
        user_agent: Option<String>,
        request_body: &str,
        timestamp: String,
    ) -> (r: Self)
        ensures
            r.event@ == "REQUEST_RECEIVED"@,
            r.timestamp == timestamp,
            r.request_id == request_id,
            r.endpoint == endpoint,
            r.asset == asset,
            optional_names_are(r.requested_timeframes, requested_timeframes),
            r.user_agent == user_agent,
            r.request_body_sha256@ == digest_text(request_body.spec_bytes()),
    {
        let request_body_sha256 = sha256_text(request_body.as_bytes());
        RequestReceived {
            event: "REQUEST_RECEIVED",
            timestamp,
            request_id,
            endpoint,
            asset,
            requested_timeframes: names_of(requested_timeframes),
            user_agent,
            request_body_sha256,
        }
    }
}

impl RequestServed {
    /// The event for an answered request, stamped with `timestamp`.
    pub fn new(
        request_id: String,
        http_status: u16,
        pramagraph_status: RuntimeStatus,
        asset: Option<String>,
        returned_timeframes: Option<Vec<Timeframe>>,
        elapsed_ms: u64,
        response_sha256: Option<String>,
        timestamp: String,
    ) -> (r: Self)
        ensures
            r.event@ == "REQUEST_SERVED"@,
            r.timestamp == timestamp,
            r.request_id == request_id,
            r.http_status == http_status,
            r.pramagraph_status@ == runtime_status_name(pramagraph_status)@,
            r.asset == asset,
            optional_names_are(r.returned_timeframes, returned_timeframes),
            r.elapsed_ms == elapsed_ms,
            r.response_sha256 == response_sha256,
    {
        RequestServed {
            event: "REQUEST_SERVED",
            timestamp,
            request_id,
            http_status,
            pramagraph_status: runtime_status_name(pramagraph_status).to_owned(),
            asset,
            returned_timeframes: names_of(returned_timeframes),
            elapsed_ms,
            response_sha256,
        }
    }
}

impl RequestFailed {
    /// The event for a failed request, stamped with `timestamp`.
    pub fn new(
        request_id: String,
        http_status: u16,
        error: String,
        elapsed_ms: u64,
        timestamp: String,
    ) -> (r: Self)
        ensures
            r.event@ == "REQUEST_FAILED"@,
            r.timestamp == timestamp,
            r.request_id == request_id,
            r.http_status == http_status,
            r.error == error,
            r.elapsed_ms == elapsed_ms,
    {
        RequestFailed { event: "REQUEST_FAILED", timestamp, request_id, http_status, error, elapsed_ms }
    }
}

} // verus!
