use warpgo_manager::account::{AccountManager, TokenDecision};
use warpgo_manager::errors::Error;
use warpgo_manager::quota::{LimitInfo, QuotaResponse, UsageResult};
use warpgo_manager::store::{AccountData, Database};
use warpgo_manager::token::{RefreshTokenResponse, TokenManager};

fn manager_with(email: &str, refresh: &str, expiry: i64) -> AccountManager {
    let mut db = Database::new();
    db.add_account(
        AccountData {
            email: String::from(email),
            sts_token_manager: TokenManager {
                access_token: String::from("cached-access"),
                refresh_token: String::from(refresh),
                expiration_time: expiry,
            },
            api_key: String::from("api-key-1"),
        },
        1,
    );
    AccountManager::new(db)
}

#[test]
fn check_token_expiration_boundary() {
    let m = manager_with("a@x.com", "r", 100_000);
    assert_eq!(m.check_token_expiration("a@x.com", 39_999), Ok(false));
    assert_eq!(m.check_token_expiration("a@x.com", 40_000), Ok(true));
    assert_eq!(m.check_token_expiration("nobody@x.com", 0), Err(Error::AccountNotFound));
}

#[test]
fn prepare_refresh_reads_stored_credential() {
    let m = manager_with("a@x.com", "stored-refresh", 1);
    let req = m.prepare_refresh("a@x.com").expect("account exists");
    assert_eq!(req.api_key, "api-key-1");
    assert_eq!(req.refresh_token, "stored-refresh");
    assert!(m.prepare_refresh("b@x.com").is_err());
}

#[test]
fn refresh_rotates_the_stored_token() {
    let mut m = manager_with("a@x.com", "old-refresh", 1);
    let resp = RefreshTokenResponse {
        access_token: String::from("new-access"),
        refresh_token: String::from("new-refresh"),
        expires_in: String::from("7200"),
    };
    let t = m.refresh_token("a@x.com", &resp, 500).expect("account exists");
    assert_eq!(t.access_token, "new-access");
    assert_eq!(t.refresh_token, "new-refresh");
    assert_eq!(t.expiration_time, 500 + 7_200_000);

    let stored = m.db.get_account_by_email("a@x.com").expect("present");
    let stored_token = stored.account_data.sts_token_manager;
    assert_eq!(stored_token.refresh_token, "new-refresh");
    assert_eq!(stored_token.access_token, "new-access");
    assert_eq!(stored_token.expiration_time, 500 + 7_200_000);
    // the previous refresh token is gone from storage
    assert_ne!(stored_token.refresh_token, "old-refresh");
}

#[test]
fn refresh_fails_without_touching_state_for_unknown_email() {
    let mut m = manager_with("a@x.com", "keep-me", 1);
    let resp = RefreshTokenResponse {
        access_token: String::from("x"),
        refresh_token: String::from("y"),
        expires_in: String::from("60"),
    };
    assert!(matches!(m.refresh_token("nobody@x.com", &resp, 500), Err(Error::AccountNotFound)));
    let stored = m.db.get_account_by_email("a@x.com").expect("present");
    assert_eq!(stored.account_data.sts_token_manager.refresh_token, "keep-me");
}

#[test]
fn ensure_fresh_token_uses_cache_until_expiring() {
    let m = manager_with("a@x.com", "r", 100_000);
    match m.ensure_fresh_token("a@x.com", 10_000).expect("exists") {
        TokenDecision::UseCached(t) => {
            assert_eq!(t.access_token, "cached-access");
            assert_eq!(t.expiration_time, 100_000);
        },
        TokenDecision::RefreshNeeded => panic!("token is still fresh at 10_000"),
    }
    match m.ensure_fresh_token("a@x.com", 40_000).expect("exists") {
        TokenDecision::RefreshNeeded => {},
        TokenDecision::UseCached(_) => panic!("token is expiring at 40_000"),
    }
    assert!(m.ensure_fresh_token("zz@x.com", 0).is_err());
}

#[test]
fn quota_for_known_account() {
    let m = manager_with("a@x.com", "r", 1);
    let resp = QuotaResponse {
        has_limit_info: true,
        requests_used: Some(12),
        request_limit: Some(100),
        is_unlimited: Some(false),
    };
    assert_eq!(
        m.get_limit_info("a@x.com", &resp),
        Ok(UsageResult::Available(LimitInfo {
            requests_used: 12,
            request_limit: 100,
            is_unlimited: false,
        }))
    );
    assert_eq!(m.get_limit_info("zz@x.com", &resp), Err(Error::AccountNotFound));
}
