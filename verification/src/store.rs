use vstd::prelude::*;

use crate::errors::Error;
use crate::strutil::{
    lex_lt, lemma_lex_lt_irrefl, lemma_lex_lt_trans, lemma_lex_lt_trichotomy, str_eq, str_lt,
};
use crate::token::TokenManager;

verus! {

use vstd::string::StringExecFns;

/// The decoded credential blob for one account: the account's own API key
/// and its current token bundle.
pub struct AccountData {
    pub email: String,
    pub sts_token_manager: TokenManager,
    pub api_key: String,
}

impl Clone for AccountData {
    fn clone(&self) -> (r: Self)
        ensures
            r == *self,
    {
        AccountData {
            email: self.email.clone(),
            sts_token_manager: self.sts_token_manager.clone(),
            api_key: self.api_key.clone(),
        }
    }
}

/// One stored account record: the unique email key, the credential data,
/// a health tag, a quota-display string, and a last-updated timestamp in
/// epoch milliseconds.
pub struct Account {
    pub id: i64,
    pub email: String,
    pub account_data: AccountData,
    pub health_status: String,
    pub limit_info: Option<String>,
    pub last_updated: i64,
}

impl Clone for Account {
    fn clone(&self) -> (r: Self)
        ensures
            r == *self,
    {
        Account {
            id: self.id,
            email: self.email.clone(),
            account_data: self.account_data.clone(),
            health_status: self.health_status.clone(),
            limit_info: match &self.limit_info {
                Some(s) => Some(s.clone()),
                None => None,
            },
            last_updated: self.last_updated,
        }
    }
}

/// Account records are kept strictly sorted by email, which also makes
/// emails unique.
pub open spec fn emails_sorted(s: Seq<Account>) -> bool {
    forall|i: int, j: int|
        0 <= i < j < s.len() ==> lex_lt(#[trigger] s[i].email@, #[trigger] s[j].email@)
}

pub open spec fn contains_email(s: Seq<Account>, email: Seq<char>) -> bool {
    exists|i: int| 0 <= i < s.len() && #[trigger] s[i].email@ == email
}

/// In a strictly sorted sequence, an email occurs at most once.
pub proof fn lemma_sorted_email_unique(s: Seq<Account>, i: int, j: int)
    requires
        emails_sorted(s),
        0 <= i < s.len(),
        0 <= j < s.len(),
        s[i].email@ == s[j].email@,
    ensures
        i == j,
{
    if i != j {
        lemma_lex_lt_irrefl(s[i].email@);
    }
}

/// Lifts record-level preservation across an upsert to the email level.
proof fn lemma_upsert_email_view(olds: Seq<Account>, news: Seq<Account>, email: Seq<char>)
    requires
        forall|a: Account| #[trigger] olds.contains(a) && a.email@ != email ==> news.contains(a),
        forall|a: Account| #[trigger] news.contains(a) ==> (olds.contains(a) || a.email@ == email),
        contains_email(news, email),
    ensures
        forall|e: Seq<char>|
            #[trigger] contains_email(news, e) <==> (contains_email(olds, e) || e == email),
{
    assert forall|e: Seq<char>|
        #[trigger] contains_email(news, e) <==> (contains_email(olds, e) || e == email) by {
        if contains_email(olds, e) && e != email {
            let i = choose|i: int| 0 <= i < olds.len() && olds[i].email@ == e;
            assert(olds.contains(olds[i]));
            assert(news.contains(olds[i]));
            let j = choose|j: int| 0 <= j < news.len() && news[j] == olds[i];
            assert(news[j].email@ == e);
        }
        if contains_email(news, e) && e != email {
            let i = choose|i: int| 0 <= i < news.len() && news[i].email@ == e;
            assert(news.contains(news[i]));
            assert(olds.contains(news[i]));
            let j = choose|j: int| 0 <= j < olds.len() && olds[j] == news[i];
            assert(olds[j].email@ == e);
        }
    }
}

/// Lifts record-level removal to the email level.
proof fn lemma_remove_email_view(olds: Seq<Account>, news: Seq<Account>, email: Seq<char>)
    requires
        forall|a: Account|
            #[trigger] news.contains(a) <==> (olds.contains(a) && a.email@ != email),
    ensures
        forall|e: Seq<char>|
            #[trigger] contains_email(news, e) <==> (contains_email(olds, e) && e != email),
{
    assert forall|e: Seq<char>|
        #[trigger] contains_email(news, e) <==> (contains_email(olds, e) && e != email) by {
        if contains_email(news, e) {
            let i = choose|i: int| 0 <= i < news.len() && news[i].email@ == e;
            assert(news.contains(news[i]));
            assert(olds.contains(news[i]));
            let j = choose|j: int| 0 <= j < olds.len() && olds[j] == news[i];
            assert(olds[j].email@ == e);
        }
        if contains_email(olds, e) && e != email {
            let i = choose|i: int| 0 <= i < olds.len() && olds[i].email@ == e;
            assert(olds.contains(olds[i]));
            assert(news.contains(olds[i]));
            let j = choose|j: int| 0 <= j < news.len() && news[j] == olds[i];
            assert(news[j].email@ == e);
        }
    }
}

/// The in-memory account table: records sorted by email, the
/// active-account pointer, and the certificate-approval flag.
///
/// Referential integrity is enforced: whenever the active-account pointer
/// is set, it names a stored account, and the operations keep it that way.
pub struct Database {
    pub accounts: Vec<Account>,
    pub active_account: Option<String>,
    pub certificate_approved: bool,
    pub next_id: i64,
}

impl Database {
    pub open spec fn wf(self) -> bool {
        &&& emails_sorted(self.accounts@)
        &&& match self.active_account {
            Some(e) => contains_email(self.accounts@, e@),
            None => true,
        }
    }

    /// The active-account pointer as a character sequence.
    pub open spec fn spec_active(self) -> Option<Seq<char>> {
        match self.active_account {
            Some(e) => Some(e@),
            None => None,
        }
    }

    /// An empty table: no accounts, no active account, certificate not
    /// approved.
    pub fn new() -> (db: Database)
        ensures
            db.wf(),
            db.accounts@.len() == 0,
            db.active_account is None,
            !db.certificate_approved,
    {
        Database {
            accounts: Vec::new(),
            active_account: None,
            certificate_approved: false,
            next_id: 1,
        }
    }

    /// Looks up an account by email, returning a copy of the record.
    pub fn get_account_by_email(&self, email: &str) -> (r: Option<Account>)
        ensures
            (r is Some) == contains_email(self.accounts@, email@),
            match r {
                Some(a) => self.accounts@.contains(a) && a.email@ == email@,
                None => true,
            },
    {
        match find_index(&self.accounts, email) {
            Some(i) => {
                let a = self.accounts[i].clone();
                proof {
                    assert(self.accounts@[i as int] == a);
                }
                Some(a)
            },
            None => None,
        }
    }

    /// Returns a copy of all account records, ordered by email.
    pub fn get_accounts(&self) -> (r: Vec<Account>)
        ensures
            r@ == self.accounts@,
    {
        let mut r: Vec<Account> = Vec::new();
        let mut i: usize = 0;
        while i < self.accounts.len()
            invariant
                i <= self.accounts@.len(),
                r@ =~= self.accounts@.subrange(0, i as int),
            decreases self.accounts@.len() - i,
        {
            r.push(self.accounts[i].clone());
            i += 1;
        }
        proof {
            assert(r@ =~= self.accounts@);
        }
        r
    }

    /// Upserts the record for `account_data`'s email: an existing record
    /// is replaced whole (health tag and quota display reset to their
    /// defaults), a new one is inserted in email order.
    pub fn add_account(&mut self, account_data: AccountData, now_ms: i64)
        requires
            old(self).wf(),
        ensures
            final(self).wf(),
            final(self).active_account == old(self).active_account,
            final(self).certificate_approved == old(self).certificate_approved,
            final(self).next_id as int == if old(self).next_id < i64::MAX {
                old(self).next_id + 1int
            } else {
                old(self).next_id as int
            },
            contains_email(final(self).accounts@, account_data.email@),
            final(self).accounts@.len() == old(self).accounts@.len() + (if contains_email(
                old(self).accounts@,
                account_data.email@,
            ) {
                0int
            } else {
                1int
            }),
            forall|a: Account|
                #[trigger] old(self).accounts@.contains(a) && a.email@ != account_data.email@
                    ==> final(self).accounts@.contains(a),
            forall|a: Account|
                #[trigger] final(self).accounts@.contains(a) ==> (old(self).accounts@.contains(a)
                    || a.email@ == account_data.email@),
            exists|k: int|
                0 <= k < final(self).accounts@.len() && is_fresh_record(
                    #[trigger] final(self).accounts@[k],
                    account_data,
                    old(self).next_id,
                    now_ms,
                ),
            forall|e: Seq<char>|
                #[trigger] contains_email(final(self).accounts@, e) <==> (contains_email(
                    old(self).accounts@,
                    e,
                ) || e == account_data.email@),
    {
        proof {
            reveal_strlit("healthy");
            reveal_strlit("Not Updated");
        }
        let email_owned = account_data.email.clone();
        let record = Account {
            id: self.next_id,
            email: email_owned,
            account_data,
            health_status: String::from_str("healthy"),
            limit_info: Some(String::from_str("Not Updated")),
            last_updated: now_ms,
        };
        let ghost old_accounts = self.accounts@;
        let mut i: usize = 0;
        while i < self.accounts.len() && str_lt(
            self.accounts[i].email.as_str(),
            record.email.as_str(),
        )
            invariant
                old_accounts == self.accounts@,
                emails_sorted(self.accounts@),
                i <= self.accounts@.len(),
                forall|j: int|
                    0 <= j < i ==> lex_lt(#[trigger] self.accounts@[j].email@, record.email@),
            decreases self.accounts@.len() - i,
        {
            i += 1;
        }
        let ghost mut wk: int = 0;
        let replace = i < self.accounts.len() && str_eq(
            self.accounts[i].email.as_str(),
            record.email.as_str(),
        );
        proof {
            if i < self.accounts@.len() && !replace {
                lemma_lex_lt_trichotomy(self.accounts@[i as int].email@, record.email@);
                assert(lex_lt(record.email@, self.accounts@[i as int].email@));
            }
            if !replace {
                // no account carries this email
                assert forall|j: int|
                    0 <= j < self.accounts@.len() implies self.accounts@[j].email@
                    != record.email@ by {
                    if j < i {
                        lemma_lex_lt_irrefl(record.email@);
                    } else if i < self.accounts@.len() {
                        if j > i {
                            lemma_lex_lt_trans(
                                record.email@,
                                self.accounts@[i as int].email@,
                                self.accounts@[j].email@,
                            );
                        }
                        lemma_lex_lt_irrefl(record.email@);
                    }
                }
            }
        }
        if replace {
            let ghost idx = i as int;
            proof {
                assert(old_accounts[idx].email@ == record.email@);
            }
            self.accounts[i] = record;
            proof {
                let newa = self.accounts@;
                assert(newa == old_accounts.update(idx, newa[idx]));
                wk = idx;
                assert(is_fresh_record(newa[idx], account_data, old(self).next_id, now_ms));
                assert(emails_sorted(newa)) by {
                    assert forall|p: int, q: int| 0 <= p < q < newa.len() implies lex_lt(
                        newa[p].email@,
                        newa[q].email@,
                    ) by {
                        assert(newa[p].email@ == old_accounts[p].email@);
                        assert(newa[q].email@ == old_accounts[q].email@);
                    }
                }
                assert forall|a: Account|
                    old_accounts.contains(a) && a.email@ != newa[idx].email@ implies
                    newa.contains(a) by {
                    let j = choose|j: int| 0 <= j < old_accounts.len() && old_accounts[j] == a;
                    assert(newa[j] == a);
                }
                assert forall|a: Account| newa.contains(a) implies (old_accounts.contains(a)
                    || a.email@ == newa[idx].email@) by {
                    let j = choose|j: int| 0 <= j < newa.len() && newa[j] == a;
                    if j != idx {
                        assert(old_accounts[j] == a);
                    }
                }
                assert(contains_email(newa, newa[idx].email@));
                // active pointer stays valid: its referent kept its email
                let ghost active_snapshot = self.active_account;
                match active_snapshot {
                    Some(e) => {
                        let j = choose|j: int|
                            0 <= j < old_accounts.len() && old_accounts[j].email@ == e@;
                        assert(newa[j].email@ == e@);
                    },
                    None => {},
                }
            }
        } else {
            let ghost idx = i as int;
            self.accounts.insert(i, record);
            proof {
                let newa = self.accounts@;
                assert(newa == old_accounts.insert(idx, newa[idx]));
                assert(newa[idx].email@ == record.email@);
                assert(forall|j: int| 0 <= j < idx ==> newa[j] == old_accounts[j]);
                assert(forall|j: int|
                    idx < j < newa.len() ==> newa[j] == old_accounts[j - 1]);
                wk = idx;
                assert(is_fresh_record(newa[idx], account_data, old(self).next_id, now_ms));
                assert(emails_sorted(newa)) by {
                    assert forall|p: int, q: int| 0 <= p < q < newa.len() implies lex_lt(
                        newa[p].email@,
                        newa[q].email@,
                    ) by {
                        if p < idx && q == idx {
                        } else if p == idx && q > idx {
                            if i < old_accounts.len() {
                                if q - 1 > idx {
                                    lemma_lex_lt_trans(
                                        record.email@,
                                        old_accounts[idx].email@,
                                        old_accounts[q - 1].email@,
                                    );
                                }
                            }
                        } else if p < idx && q > idx {
                            assert(lex_lt(old_accounts[p].email@, record.email@));
                            if i < old_accounts.len() {
                                if q - 1 > idx {
                                    lemma_lex_lt_trans(
                                        record.email@,
                                        old_accounts[idx].email@,
                                        old_accounts[q - 1].email@,
                                    );
                                }
                                lemma_lex_lt_trans(
                                    old_accounts[p].email@,
                                    record.email@,
                                    old_accounts[q - 1].email@,
                                );
                            }
                        }
                    }
                }
                assert forall|a: Account|
                    old_accounts.contains(a) && a.email@ != record.email@ implies newa.contains(
                    a,
                ) by {
                    let j = choose|j: int| 0 <= j < old_accounts.len() && old_accounts[j] == a;
                    if j < idx {
                        assert(newa[j] == a);
                    } else {
                        assert(newa[j + 1] == a);
                    }
                }
                assert forall|a: Account| newa.contains(a) implies (old_accounts.contains(a)
                    || a.email@ == record.email@) by {
                    let j = choose|j: int| 0 <= j < newa.len() && newa[j] == a;
                    if j < idx {
                        assert(old_accounts[j] == a);
                    } else if j > idx {
                        assert(old_accounts[j - 1] == a);
                    }
                }
                assert(contains_email(newa, record.email@));
                let ghost active_snapshot = self.active_account;
                match active_snapshot {
                    Some(e) => {
                        let j = choose|j: int|
                            0 <= j < old_accounts.len() && old_accounts[j].email@ == e@;
                        if j < idx {
                            assert(newa[j].email@ == e@);
                        } else {
                            assert(newa[j + 1].email@ == e@);
                        }
                    },
                    None => {},
                }
            }
        }
        self.next_id = if self.next_id < i64::MAX {
            self.next_id + 1
        } else {
            self.next_id
        };
        proof {
            assert(0 <= wk < self.accounts@.len() && is_fresh_record(
                self.accounts@[wk],
                account_data,
                old(self).next_id,
                now_ms,
            ));
            lemma_upsert_email_view(old(self).accounts@, self.accounts@, account_data.email@);
        }
    }

    /// Removes the record with the given email, if present; deleting the
    /// active account clears the active pointer in the same operation, and
    /// deleting any other account leaves the pointer untouched.
    pub fn delete_account(&mut self, email: &str)
        requires
            old(self).wf(),
        ensures
            final(self).wf(),
            final(self).certificate_approved == old(self).certificate_approved,
            final(self).next_id == old(self).next_id,
            final(self).accounts@.len() == old(self).accounts@.len() - (if contains_email(
                old(self).accounts@,
                email@,
            ) {
                1int
            } else {
                0int
            }),
            forall|a: Account|
                #[trigger] final(self).accounts@.contains(a) <==> (old(
                    self,
                ).accounts@.contains(a) && a.email@ != email@),
            final(self).active_account == (if old(self).spec_active() == Some(email@) {
                None::<String>
            } else {
                old(self).active_account
            }),
            forall|e: Seq<char>|
                #[trigger] contains_email(final(self).accounts@, e) <==> (contains_email(
                    old(self).accounts@,
                    e,
                ) && e != email@),
    {
        let ghost old_accounts = self.accounts@;
        match find_index(&self.accounts, email) {
            Some(i) => {
                let ghost idx = i as int;
                self.accounts.remove(i);
                proof {
                    let newa = self.accounts@;
                    assert(newa == old_accounts.remove(idx));
                    assert(forall|j: int| 0 <= j < idx ==> newa[j] == old_accounts[j]);
                    assert(forall|j: int|
                        idx <= j < newa.len() ==> newa[j] == old_accounts[j + 1]);
                    assert(emails_sorted(newa)) by {
                        assert forall|p: int, q: int| 0 <= p < q < newa.len() implies lex_lt(
                            newa[p].email@,
                            newa[q].email@,
                        ) by {
                            let p0 = if p < idx { p } else { p + 1 };
                            let q0 = if q < idx { q } else { q + 1 };
                            assert(newa[p] == old_accounts[p0]);
                            assert(newa[q] == old_accounts[q0]);
                        }
                    }
                    assert forall|a: Account| newa.contains(a) implies (old_accounts.contains(a)
                        && a.email@ != email@) by {
                        let j = choose|j: int| 0 <= j < newa.len() && newa[j] == a;
                        let j0 = if j < idx { j } else { j + 1 };
                        assert(old_accounts[j0] == a);
                        if a.email@ == email@ {
                            lemma_sorted_email_unique(old_accounts, j0, idx);
                        }
                    }
                    assert forall|a: Account|
                        old_accounts.contains(a) && a.email@ != email@ implies newa.contains(
                        a,
                    ) by {
                        let j = choose|j: int|
                            0 <= j < old_accounts.len() && old_accounts[j] == a;
                        if j < idx {
                            assert(newa[j] == a);
                        } else {
                            assert(newa[j - 1] == a);
                        }
                    }
                }
            },
            None => {
                proof {
                    assert forall|a: Account|
                        #[trigger] self.accounts@.contains(a) <==> (old(
                        self,
                    ).accounts@.contains(a) && a.email@ != email@) by {
                        if self.accounts@.contains(a) && a.email@ == email@ {
                            let j = choose|j: int|
                                0 <= j < self.accounts@.len() && self.accounts@[j] == a;
                            assert(self.accounts@[j].email@ == email@);
                        }
                    }
                }
            },
        }
        proof {
            lemma_remove_email_view(old(self).accounts@, self.accounts@, email@);
        }
        let clear = match &self.active_account {
            Some(e) => str_eq(e.as_str(), email),
            None => false,
        };
        if clear {
            self.active_account = None;
        }
        proof {
            let ghost active_snapshot = self.active_account;
            match active_snapshot {
                Some(e) => {
                    let j = choose|j: int|
                        0 <= j < old_accounts.len() && old_accounts[j].email@ == e@;
                    assert(old_accounts.contains(old_accounts[j]));
                    assert(self.accounts@.contains(old_accounts[j]));
                },
                None => {},
            }
        }
    }

    /// Replaces the health tag of the account with the given email, if
    /// present, and refreshes its timestamp; unknown emails are a no-op.
    pub fn update_account_health(&mut self, email: &str, health_status: &str, now_ms: i64)
        requires
            old(self).wf(),
        ensures
            final(self).wf(),
            final(self).active_account == old(self).active_account,
            final(self).certificate_approved == old(self).certificate_approved,
            final(self).next_id == old(self).next_id,
            final(self).accounts@.len() == old(self).accounts@.len(),
            forall|k: int|
                0 <= k < old(self).accounts@.len() ==> if old(self).accounts@[k].email@
                    == email@ {
                    record_with_health(
                        old(self).accounts@[k],
                        #[trigger] final(self).accounts@[k],
                        health_status@,
                        now_ms,
                    )
                } else {
                    final(self).accounts@[k] == old(self).accounts@[k]
                },
    {
        let ghost old_accounts = self.accounts@;
        match find_index(&self.accounts, email) {
            Some(i) => {
                let mut a = self.accounts[i].clone();
                a.health_status = String::from_str(health_status);
                a.last_updated = now_ms;
                self.accounts[i] = a;
                proof {
                    update_common_proof(old_accounts, self.accounts@, i as int, email@);
                    let ghost active_snapshot = self.active_account;
                match active_snapshot {
                        Some(e) => {
                            let j = choose|j: int|
                                0 <= j < old_accounts.len() && old_accounts[j].email@ == e@;
                            assert(self.accounts@[j].email@ == e@);
                        },
                        None => {},
                    }
                }
            },
            None => {},
        }
    }

    /// Replaces the token bundle inside the stored credential data of the
    /// account with the given email and refreshes its timestamp. Fails
    /// with `AccountNotFound`, leaving the table unchanged, exactly when
    /// the email is unknown.
    pub fn update_account_token(&mut self, email: &str, token_data: &TokenManager, now_ms: i64)
        -> (r: Result<(), Error>)
        requires
            old(self).wf(),
        ensures
            final(self).wf(),
            r is Ok <==> contains_email(old(self).accounts@, email@),
            r is Err ==> *final(self) == *old(self) && r == Result::<(), Error>::Err(
                Error::AccountNotFound,
            ),
            final(self).active_account == old(self).active_account,
            final(self).certificate_approved == old(self).certificate_approved,
            final(self).next_id == old(self).next_id,
            final(self).accounts@.len() == old(self).accounts@.len(),
            forall|k: int|
                0 <= k < old(self).accounts@.len() ==> if old(self).accounts@[k].email@
                    == email@ && r is Ok {
                    record_with_token(
                        old(self).accounts@[k],
                        #[trigger] final(self).accounts@[k],
                        *token_data,
                        now_ms,
                    )
                } else {
                    final(self).accounts@[k] == old(self).accounts@[k]
                },
    {
        let ghost old_accounts = self.accounts@;
        match find_index(&self.accounts, email) {
            Some(i) => {
                let mut a = self.accounts[i].clone();
                a.account_data = AccountData {
                    email: a.account_data.email,
                    sts_token_manager: token_data.clone(),
                    api_key: a.account_data.api_key,
                };
                a.last_updated = now_ms;
                self.accounts[i] = a;
                proof {
                    update_common_proof(old_accounts, self.accounts@, i as int, email@);
                    let ghost active_snapshot = self.active_account;
                match active_snapshot {
                        Some(e) => {
                            let j = choose|j: int|
                                0 <= j < old_accounts.len() && old_accounts[j].email@ == e@;
                            assert(self.accounts@[j].email@ == e@);
                        },
                        None => {},
                    }
                }
                Ok(())
            },
            None => Err(Error::AccountNotFound),
        }
    }

    /// Replaces the quota-display string of the account with the given
    /// email, if present, and refreshes its timestamp; unknown emails are
    /// a no-op.
    pub fn update_account_limit_info(&mut self, email: &str, limit_info: &str, now_ms: i64)
        requires
            old(self).wf(),
        ensures
            final(self).wf(),
            final(self).active_account == old(self).active_account,
            final(self).certificate_approved == old(self).certificate_approved,
            final(self).next_id == old(self).next_id,
            final(self).accounts@.len() == old(self).accounts@.len(),
            forall|k: int|
                0 <= k < old(self).accounts@.len() ==> if old(self).accounts@[k].email@
                    == email@ {
                    record_with_limit_info(
                        old(self).accounts@[k],
                        #[trigger] final(self).accounts@[k],
                        limit_info@,
                        now_ms,
                    )
                } else {
                    final(self).accounts@[k] == old(self).accounts@[k]
                },
    {
        let ghost old_accounts = self.accounts@;
        match find_index(&self.accounts, email) {
            Some(i) => {
                let mut a = self.accounts[i].clone();
                a.limit_info = Some(String::from_str(limit_info));
                a.last_updated = now_ms;
                self.accounts[i] = a;
                proof {
                    update_common_proof(old_accounts, self.accounts@, i as int, email@);
                    let ghost active_snapshot = self.active_account;
                match active_snapshot {
                        Some(e) => {
                            let j = choose|j: int|
                                0 <= j < old_accounts.len() && old_accounts[j].email@ == e@;
                            assert(self.accounts@[j].email@ == e@);
                        },
                        None => {},
                    }
                }
            },
            None => {},
        }
    }

    /// Points the active-account pointer at the given email. Referential
    /// integrity is enforced: an unknown email fails with
    /// `AccountNotFound` and changes nothing, so the pointer can never
    /// dangle.
    pub fn set_active_account(&mut self, email: &str) -> (r: Result<(), Error>)
        requires
            old(self).wf(),
        ensures
            final(self).wf(),
            r is Ok <==> contains_email(old(self).accounts@, email@),
            r is Err ==> *final(self) == *old(self) && r == Result::<(), Error>::Err(
                Error::AccountNotFound,
            ),
            r is Ok ==> final(self).spec_active() == Some(email@),
            final(self).accounts@ == old(self).accounts@,
            final(self).certificate_approved == old(self).certificate_approved,
            final(self).next_id == old(self).next_id,
    {
        match find_index(&self.accounts, email) {
            Some(_) => {
                self.active_account = Some(String::from_str(email));
                Ok(())
            },
            None => Err(Error::AccountNotFound),
        }
    }

    /// Reads the active-account pointer.
    pub fn get_active_account(&self) -> (r: Option<String>)
        ensures
            match (r, self.active_account) {
                (Some(a), Some(b)) => a@ == b@,
                (None, None) => true,
                _ => false,
            },
    {
        match &self.active_account {
            Some(e) => Some(e.clone()),
            None => None,
        }
    }

    /// Clears the active-account pointer.
    pub fn clear_active_account(&mut self)
        requires
            old(self).wf(),
        ensures
            final(self).wf(),
            final(self).active_account is None,
            final(self).accounts@ == old(self).accounts@,
            final(self).certificate_approved == old(self).certificate_approved,
            final(self).next_id == old(self).next_id,
    {
        self.active_account = None;
    }

    /// Reads the certificate-approval flag.
    pub fn is_certificate_approved(&self) -> (r: bool)
        ensures
            r == self.certificate_approved,
    {
        self.certificate_approved
    }

    /// Sets the certificate-approval flag.
    pub fn set_certificate_approved(&mut self, approved: bool)
        requires
            old(self).wf(),
        ensures
            final(self).wf(),
            final(self).certificate_approved == approved,
            final(self).accounts@ == old(self).accounts@,
            final(self).active_account == old(self).active_account,
            final(self).next_id == old(self).next_id,
    {
        self.certificate_approved = approved;
    }
}

/// A freshly upserted record: carries the given credential data, the
/// default health tag and quota display, and the given timestamp.
pub open spec fn is_fresh_record(a: Account, data: AccountData, id: i64, now_ms: i64) -> bool {
    &&& a.id == id
    &&& a.email@ == data.email@
    &&& a.account_data == data
    &&& a.health_status@ == "healthy"@
    &&& match a.limit_info {
        Some(s) => s@ == "Not Updated"@,
        None => false,
    }
    &&& a.last_updated == now_ms
}

/// `b` is `a` with the health tag replaced and the timestamp refreshed.
pub open spec fn record_with_health(a: Account, b: Account, health: Seq<char>, now_ms: i64) -> bool {
    &&& b.id == a.id
    &&& b.email == a.email
    &&& b.account_data == a.account_data
    &&& b.health_status@ == health
    &&& b.limit_info == a.limit_info
    &&& b.last_updated == now_ms
}

/// `b` is `a` with the token bundle replaced and the timestamp refreshed.
pub open spec fn record_with_token(a: Account, b: Account, token: TokenManager, now_ms: i64) -> bool {
    &&& b.id == a.id
    &&& b.email == a.email
    &&& b.account_data.email == a.account_data.email
    &&& b.account_data.api_key == a.account_data.api_key
    &&& b.account_data.sts_token_manager == token
    &&& b.health_status == a.health_status
    &&& b.limit_info == a.limit_info
    &&& b.last_updated == now_ms
}

/// `b` is `a` with the quota-display string replaced and the timestamp
/// refreshed.
pub open spec fn record_with_limit_info(
    a: Account,
    b: Account,
    limit_info: Seq<char>,
    now_ms: i64,
) -> bool {
    &&& b.id == a.id
    &&& b.email == a.email
    &&& b.account_data == a.account_data
    &&& b.health_status == a.health_status
    &&& match b.limit_info {
        Some(s) => s@ == limit_info,
        None => false,
    }
    &&& b.last_updated == now_ms
}

/// Scans for the record with the given email.
fn find_index(accounts: &Vec<Account>, email: &str) -> (r: Option<usize>)
    ensures
        match r {
            Some(i) => i < accounts@.len() && accounts@[i as int].email@ == email@,
            None => !contains_email(accounts@, email@),
        },
{
    let mut i: usize = 0;
    while i < accounts.len()
        invariant
            i <= accounts@.len(),
            forall|j: int| 0 <= j < i ==> #[trigger] accounts@[j].email@ != email@,
        decreases accounts@.len() - i,
    {
        if str_eq(accounts[i].email.as_str(), email) {
            return Some(i);
        }
        i += 1;
    }
    None
}

/// An in-place record update at one index preserves sortedness when the
/// email is unchanged.
proof fn update_common_proof(olds: Seq<Account>, news: Seq<Account>, idx: int, email: Seq<char>)
    requires
        emails_sorted(olds),
        0 <= idx < olds.len(),
        news.len() == olds.len(),
        olds[idx].email@ == email,
        news[idx].email@ == email,
        forall|j: int| 0 <= j < olds.len() && j != idx ==> news[j] == olds[j],
    ensures
        emails_sorted(news),
        forall|k: int|
            0 <= k < olds.len() && olds[k].email@ != email ==> news[k] == olds[k],
        forall|k: int| 0 <= k < olds.len() && #[trigger] olds[k].email@ == email ==> k == idx,
{
    assert forall|k: int|
        0 <= k < olds.len() && #[trigger] olds[k].email@ == email implies k == idx by {
        lemma_sorted_email_unique(olds, k, idx);
    }
    assert forall|p: int, q: int| 0 <= p < q < news.len() implies lex_lt(
        news[p].email@,
        news[q].email@,
    ) by {
        assert(news[p].email@ == olds[p].email@);
        assert(news[q].email@ == olds[q].email@);
    }
    assert forall|k: int|
        0 <= k < olds.len() && olds[k].email@ != email implies news[k] == olds[k] by {
        if k == idx {
            assert(false);
        }
    }
}

} // verus!
