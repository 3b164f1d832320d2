use vstd::prelude::*;

use crate::errors::Error;
use crate::store::contains_email;
use crate::account::AccountManager;

verus! {

/// Quota counters as the remote usage endpoint reports them.
#[derive(Clone, Copy, Debug, PartialEq, Eq, Structural)]
pub struct LimitInfo {
    pub requests_used: i64,
    pub request_limit: i64,
    pub is_unlimited: bool,
}

/// Host descriptors sent along with a quota query: the operating system's
/// category, name and version. The surrounding application fills these in
/// from the running platform.
pub struct OsInfo {
    pub category: String,
    pub name: String,
    pub version: String,
}

/// The usage fields extracted from a quota response. `has_limit_info` says
/// whether the expected nested payload path was present at all; each
/// counter is present only when its field was a number, and the flag only
/// when its field was a boolean.
#[derive(Clone, Copy, Debug, PartialEq, Eq, Structural)]
pub struct QuotaResponse {
    pub has_limit_info: bool,
    pub requests_used: Option<i64>,
    pub request_limit: Option<i64>,
    pub is_unlimited: Option<bool>,
}

/// The outcome of a quota query: the counters, or the "unavailable"
/// sentinel when the response carried no usage payload — shown as
/// "not available" rather than treated as an error.
#[derive(Clone, Copy, Debug, PartialEq, Eq, Structural)]
pub enum UsageResult {
    Available(LimitInfo),
    Unavailable,
}

/// How a quota response is read: no payload path means unavailable;
/// otherwise missing numeric fields default to zero and a missing
/// unlimited flag defaults to false.
pub open spec fn spec_usage(resp: QuotaResponse) -> UsageResult {
    if !resp.has_limit_info {
        UsageResult::Unavailable
    } else {
        UsageResult::Available(
            LimitInfo {
                requests_used: match resp.requests_used {
                    Some(v) => v,
                    None => 0,
                },
                request_limit: match resp.request_limit {
                    Some(v) => v,
                    None => 0,
                },
                is_unlimited: match resp.is_unlimited {
                    Some(b) => b,
                    None => false,
                },
            },
        )
    }
}

/// Interprets an extracted quota response; never fails, whatever the
/// response holds.
pub fn interpret_quota_response(resp: &QuotaResponse) -> (r: UsageResult)
    ensures
        r == spec_usage(*resp),
{
    if !resp.has_limit_info {
        UsageResult::Unavailable
    } else {
        UsageResult::Available(
            LimitInfo {
                requests_used: match resp.requests_used {
                    Some(v) => v,
                    None => 0,
                },
                request_limit: match resp.request_limit {
                    Some(v) => v,
                    None => 0,
                },
                is_unlimited: match resp.is_unlimited {
                    Some(b) => b,
                    None => false,
                },
            },
        )
    }
}

impl AccountManager {
    /// The usage counters for `email`, read from the quota endpoint's
    /// response. Fails with `AccountNotFound` exactly when the email is
    /// unknown; a response without the usage payload yields the
    /// unavailable sentinel, not an error.
    pub fn get_limit_info(&self, email: &str, response: &QuotaResponse) -> (r: Result<
        UsageResult,
        Error,
    >)
        requires
            self.db.wf(),
        ensures
            r is Ok <==> contains_email(self.db.accounts@, email@),
            r is Err ==> r == Result::<UsageResult, Error>::Err(Error::AccountNotFound),
            match r {
                Ok(u) => u == spec_usage(*response),
                Err(_) => true,
            },
    {
        match self.db.get_account_by_email(email) {
            Some(_) => Ok(interpret_quota_response(response)),
            None => Err(Error::AccountNotFound),
        }
    }
}

} // verus!
