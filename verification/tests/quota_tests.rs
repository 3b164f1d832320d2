use warpgo_manager::quota::{interpret_quota_response, LimitInfo, QuotaResponse, UsageResult};

#[test]
fn missing_payload_is_unavailable_not_an_error() {
    let resp = QuotaResponse {
        has_limit_info: false,
        requests_used: None,
        request_limit: None,
        is_unlimited: None,
    };
    assert_eq!(interpret_quota_response(&resp), UsageResult::Unavailable);
}

#[test]
fn missing_payload_wins_over_stray_fields() {
    let resp = QuotaResponse {
        has_limit_info: false,
        requests_used: Some(5),
        request_limit: Some(10),
        is_unlimited: Some(true),
    };
    assert_eq!(interpret_quota_response(&resp), UsageResult::Unavailable);
}

#[test]
fn full_payload_is_passed_through() {
    let resp = QuotaResponse {
        has_limit_info: true,
        requests_used: Some(42),
        request_limit: Some(150),
        is_unlimited: Some(true),
    };
    assert_eq!(
        interpret_quota_response(&resp),
        UsageResult::Available(LimitInfo {
            requests_used: 42,
            request_limit: 150,
            is_unlimited: true,
        })
    );
}

#[test]
fn missing_fields_default_to_zero_and_false() {
    let resp = QuotaResponse {
        has_limit_info: true,
        requests_used: None,
        request_limit: None,
        is_unlimited: None,
    };
    assert_eq!(
        interpret_quota_response(&resp),
        UsageResult::Available(LimitInfo {
            requests_used: 0,
            request_limit: 0,
            is_unlimited: false,
        })
    );
}
