use warpgo_manager::errors::Error;
use warpgo_manager::store::{AccountData, Database};
use warpgo_manager::token::TokenManager;

fn data(email: &str, api_key: &str, refresh: &str) -> AccountData {
    AccountData {
        email: String::from(email),
        sts_token_manager: TokenManager {
            access_token: String::from("access"),
            refresh_token: String::from(refresh),
            expiration_time: 1_000,
        },
        api_key: String::from(api_key),
    }
}

#[test]
fn new_database_is_empty() {
    let db = Database::new();
    assert_eq!(db.get_accounts().len(), 0);
    assert!(db.get_active_account().is_none());
    assert!(!db.is_certificate_approved());
}

#[test]
fn add_then_get() {
    let mut db = Database::new();
    db.add_account(data("a@x.com", "key-a", "tok-a"), 42);
    let a = db.get_account_by_email("a@x.com").expect("present");
    assert_eq!(a.email, "a@x.com");
    assert_eq!(a.account_data.api_key, "key-a");
    assert_eq!(a.health_status, "healthy");
    assert_eq!(a.limit_info.as_deref(), Some("Not Updated"));
    assert_eq!(a.last_updated, 42);
    assert!(db.get_account_by_email("b@x.com").is_none());
}

#[test]
fn add_is_an_upsert() {
    let mut db = Database::new();
    db.add_account(data("a@x.com", "key-1", "tok-1"), 1);
    db.add_account(data("a@x.com", "key-2", "tok-2"), 2);
    assert_eq!(db.get_accounts().len(), 1);
    let a = db.get_account_by_email("a@x.com").expect("present");
    assert_eq!(a.account_data.api_key, "key-2");
    assert_eq!(a.last_updated, 2);
}

#[test]
fn accounts_are_listed_in_email_order() {
    let mut db = Database::new();
    db.add_account(data("b@x.com", "k", "t"), 1);
    db.add_account(data("a@x.com", "k", "t"), 2);
    db.add_account(data("c@x.com", "k", "t"), 3);
    let emails: Vec<String> = db.get_accounts().into_iter().map(|a| a.email).collect();
    assert_eq!(emails, vec!["a@x.com", "b@x.com", "c@x.com"]);
}

#[test]
fn delete_clears_active_pointer_only_for_its_own_account() {
    let mut db = Database::new();
    db.add_account(data("a@x.com", "k", "t"), 1);
    db.add_account(data("b@x.com", "k", "t"), 2);
    db.set_active_account("a@x.com").expect("exists");

    db.delete_account("b@x.com");
    assert_eq!(db.get_active_account().as_deref(), Some("a@x.com"));

    db.delete_account("a@x.com");
    assert!(db.get_active_account().is_none());
    assert_eq!(db.get_accounts().len(), 0);
}

#[test]
fn delete_unknown_email_changes_nothing() {
    let mut db = Database::new();
    db.add_account(data("a@x.com", "k", "t"), 1);
    db.set_active_account("a@x.com").expect("exists");
    db.delete_account("zz@x.com");
    assert_eq!(db.get_accounts().len(), 1);
    assert_eq!(db.get_active_account().as_deref(), Some("a@x.com"));
}

#[test]
fn set_active_requires_existing_account() {
    let mut db = Database::new();
    assert_eq!(db.set_active_account("nobody@x.com"), Err(Error::AccountNotFound));
    assert!(db.get_active_account().is_none());

    db.add_account(data("a@x.com", "k", "t"), 1);
    assert_eq!(db.set_active_account("a@x.com"), Ok(()));
    assert_eq!(db.get_active_account().as_deref(), Some("a@x.com"));

    db.clear_active_account();
    assert!(db.get_active_account().is_none());
}

#[test]
fn update_token_replaces_the_stored_bundle() {
    let mut db = Database::new();
    db.add_account(data("a@x.com", "k", "old-refresh"), 1);
    db.add_account(data("b@x.com", "k", "b-refresh"), 1);
    let t = TokenManager {
        access_token: String::from("new-access"),
        refresh_token: String::from("new-refresh"),
        expiration_time: 9_000,
    };
    assert_eq!(db.update_account_token("a@x.com", &t, 7), Ok(()));
    let a = db.get_account_by_email("a@x.com").expect("present");
    assert_eq!(a.account_data.sts_token_manager.access_token, "new-access");
    assert_eq!(a.account_data.sts_token_manager.refresh_token, "new-refresh");
    assert_eq!(a.account_data.sts_token_manager.expiration_time, 9_000);
    assert_eq!(a.last_updated, 7);
    // the other account is untouched
    let b = db.get_account_by_email("b@x.com").expect("present");
    assert_eq!(b.account_data.sts_token_manager.refresh_token, "b-refresh");
}

#[test]
fn update_token_fails_for_unknown_email() {
    let mut db = Database::new();
    let t = TokenManager {
        access_token: String::from("x"),
        refresh_token: String::from("y"),
        expiration_time: 1,
    };
    assert_eq!(db.update_account_token("nobody@x.com", &t, 1), Err(Error::AccountNotFound));
}

#[test]
fn update_health_and_limit_info() {
    let mut db = Database::new();
    db.add_account(data("a@x.com", "k", "t"), 1);
    db.update_account_health("a@x.com", "banned", 5);
    let a = db.get_account_by_email("a@x.com").expect("present");
    assert_eq!(a.health_status, "banned");
    assert_eq!(a.last_updated, 5);

    db.update_account_limit_info("a@x.com", "12/100", 6);
    let a = db.get_account_by_email("a@x.com").expect("present");
    assert_eq!(a.limit_info.as_deref(), Some("12/100"));
    assert_eq!(a.last_updated, 6);

    // unknown emails are a no-op for both
    db.update_account_health("zz@x.com", "banned", 7);
    db.update_account_limit_info("zz@x.com", "1/2", 7);
    assert_eq!(db.get_accounts().len(), 1);
}

#[test]
fn certificate_approval_flag() {
    let mut db = Database::new();
    assert!(!db.is_certificate_approved());
    db.set_certificate_approved(true);
    assert!(db.is_certificate_approved());
    db.set_certificate_approved(false);
    assert!(!db.is_certificate_approved());
}
