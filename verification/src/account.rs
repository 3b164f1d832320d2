use vstd::prelude::*;

use crate::errors::Error;
use crate::store::{
    contains_email, emails_sorted, lemma_sorted_email_unique, record_with_token, Account, Database,
};
use crate::token::{
    is_expiring_soon, spec_expiring_soon, spec_lifetime_seconds, spec_refreshed_expiry,
    token_from_refresh_response, RefreshTokenResponse, TokenManager,
};

verus! {

/// The parameters of a refresh-grant request to the identity provider:
/// the account's own API key (which keys the request URL) and the stored
/// refresh token to exchange. The request body carries
/// `grant_type=refresh_token` and this token; the caller performs the
/// actual HTTP exchange.
pub struct RefreshRequest {
    pub api_key: String,
    pub refresh_token: String,
}

/// What a caller should use as the access token for an authenticated
/// call: the cached bundle when it is still fresh, or nothing yet —
/// a refresh must be performed first.
pub enum TokenDecision {
    UseCached(TokenManager),
    RefreshNeeded,
}

/// Account-level token operations over the credential store. The store is
/// owned; the surrounding application performs the network exchanges and
/// feeds the responses back in.
pub struct AccountManager {
    pub db: Database,
}

/// Every record carrying `email` is exactly `a`: emails are unique in a
/// sorted table.
pub proof fn lemma_account_at_email(s: Seq<Account>, a: Account, email: Seq<char>)
    requires
        emails_sorted(s),
        s.contains(a),
        a.email@ == email,
    ensures
        forall|i: int| 0 <= i < s.len() && #[trigger] s[i].email@ == email ==> s[i] == a,
{
    let j = choose|j: int| 0 <= j < s.len() && s[j] == a;
    assert forall|i: int| 0 <= i < s.len() && #[trigger] s[i].email@ == email implies s[i]
        == a by {
        lemma_sorted_email_unique(s, i, j);
    }
}

impl AccountManager {
    pub fn new(db: Database) -> (m: AccountManager)
        ensures
            m.db == db,
    {
        AccountManager { db }
    }

    /// Whether the stored token for `email` is expiring soon at `now_ms`:
    /// true exactly when `now_ms >= expiry - 60000`, so exactly at the
    /// one-minute boundary it is already true. Fails with
    /// `AccountNotFound` exactly when the email is unknown.
    pub fn check_token_expiration(&self, email: &str, now_ms: i64) -> (r: Result<bool, Error>)
        requires
            self.db.wf(),
        ensures
            r is Ok <==> contains_email(self.db.accounts@, email@),
            r is Err ==> r == Result::<bool, Error>::Err(Error::AccountNotFound),
            match r {
                Ok(b) => forall|i: int|
                    0 <= i < self.db.accounts@.len() && #[trigger] self.db.accounts@[i].email@
                        == email@ ==> b == spec_expiring_soon(
                        self.db.accounts@[i].account_data.sts_token_manager.expiration_time as int,
                        now_ms as int,
                    ),
                Err(_) => true,
            },
    {
        match self.db.get_account_by_email(email) {
            Some(a) => {
                proof {
                    lemma_account_at_email(self.db.accounts@, a, email@);
                }
                Ok(is_expiring_soon(a.account_data.sts_token_manager.expiration_time, now_ms))
            },
            None => Err(Error::AccountNotFound),
        }
    }

    /// The refresh-grant request for `email`'s stored credential: its own
    /// API key and its current refresh token. Fails with `AccountNotFound`
    /// exactly when the email is unknown.
    pub fn prepare_refresh(&self, email: &str) -> (r: Result<RefreshRequest, Error>)
        requires
            self.db.wf(),
        ensures
            r is Ok <==> contains_email(self.db.accounts@, email@),
            r is Err ==> r == Result::<RefreshRequest, Error>::Err(Error::AccountNotFound),
            match r {
                Ok(req) => forall|i: int|
                    0 <= i < self.db.accounts@.len() && #[trigger] self.db.accounts@[i].email@
                        == email@ ==> req.api_key@
                        == self.db.accounts@[i].account_data.api_key@ && req.refresh_token@
                        == self.db.accounts@[i].account_data.sts_token_manager.refresh_token@,
                Err(_) => true,
            },
    {
        match self.db.get_account_by_email(email) {
            Some(a) => {
                proof {
                    lemma_account_at_email(self.db.accounts@, a, email@);
                }
                Ok(
                    RefreshRequest {
                        api_key: a.account_data.api_key,
                        refresh_token: a.account_data.sts_token_manager.refresh_token,
                    },
                )
            },
            None => Err(Error::AccountNotFound),
        }
    }

    /// Which token an authenticated call for `email` should use at
    /// `now_ms`: the cached bundle unless it is expiring soon, in which
    /// case a refresh is needed first. Fails with `AccountNotFound`
    /// exactly when the email is unknown.
    pub fn ensure_fresh_token(&self, email: &str, now_ms: i64) -> (r: Result<TokenDecision, Error>)
        requires
            self.db.wf(),
        ensures
            r is Ok <==> contains_email(self.db.accounts@, email@),
            r is Err ==> r == Result::<TokenDecision, Error>::Err(Error::AccountNotFound),
            match r {
                Ok(d) => forall|i: int|
                    0 <= i < self.db.accounts@.len() && #[trigger] self.db.accounts@[i].email@
                        == email@ ==> {
                        let tok = self.db.accounts@[i].account_data.sts_token_manager;
                        if spec_expiring_soon(tok.expiration_time as int, now_ms as int) {
                            d is RefreshNeeded
                        } else {
                            d == TokenDecision::UseCached(tok)
                        }
                    },
                Err(_) => true,
            },
    {
        match self.db.get_account_by_email(email) {
            Some(a) => {
                proof {
                    lemma_account_at_email(self.db.accounts@, a, email@);
                }
                if is_expiring_soon(a.account_data.sts_token_manager.expiration_time, now_ms) {
                    Ok(TokenDecision::RefreshNeeded)
                } else {
                    Ok(TokenDecision::UseCached(a.account_data.sts_token_manager))
                }
            },
            None => Err(Error::AccountNotFound),
        }
    }

    /// Applies the identity provider's refresh response for `email`: the
    /// new token bundle is computed from the response at `now_ms`, written
    /// back through the store as a single update, and returned. A failed
    /// lookup changes nothing; a failed exchange never reaches this point,
    /// so stored state is only touched on success.
    pub fn refresh_token(&mut self, email: &str, response: &RefreshTokenResponse, now_ms: i64)
        -> (r: Result<TokenManager, Error>)
        requires
            old(self).db.wf(),
        ensures
            final(self).db.wf(),
            r is Ok <==> contains_email(old(self).db.accounts@, email@),
            r is Err ==> *final(self) == *old(self) && r == Result::<TokenManager, Error>::Err(
                Error::AccountNotFound,
            ),
            final(self).db.active_account == old(self).db.active_account,
            final(self).db.certificate_approved == old(self).db.certificate_approved,
            final(self).db.accounts@.len() == old(self).db.accounts@.len(),
            match r {
                Ok(t) => {
                    &&& t.access_token@ == response.access_token@
                    &&& t.refresh_token@ == response.refresh_token@
                    &&& t.expiration_time as int == spec_refreshed_expiry(
                        response.expires_in@,
                        now_ms as int,
                    )
                    &&& forall|k: int|
                        0 <= k < old(self).db.accounts@.len() ==> if old(
                            self,
                        ).db.accounts@[k].email@ == email@ {
                            record_with_token(
                                old(self).db.accounts@[k],
                                #[trigger] final(self).db.accounts@[k],
                                t,
                                now_ms,
                            )
                        } else {
                            final(self).db.accounts@[k] == old(self).db.accounts@[k]
                        }
                },
                Err(_) => true,
            },
    {
        let t = token_from_refresh_response(response, now_ms);
        match self.db.update_account_token(email, &t, now_ms) {
            Ok(_) => Ok(t),
            Err(e) => Err(e),
        }
    }
}

/// Law: a successful refresh leaves the store holding exactly the newly
/// issued bundle for the refreshed account. Its expiry is the refresh
/// start time plus the declared lifetime in milliseconds (whenever that
/// sum is representable), its refresh token is the one the provider just
/// returned — so a previous, different refresh token is no longer stored
/// for that account — and every other account is untouched.
pub proof fn lemma_refresh_rotates_and_stamps(
    olds: Seq<Account>,
    news: Seq<Account>,
    response: RefreshTokenResponse,
    t: TokenManager,
    email: Seq<char>,
    now_ms: i64,
)
    requires
        t.refresh_token@ == response.refresh_token@,
        t.expiration_time as int == spec_refreshed_expiry(response.expires_in@, now_ms as int),
        i64::MIN <= now_ms + spec_lifetime_seconds(response.expires_in@) * 1000 <= i64::MAX,
        olds.len() == news.len(),
        forall|k: int|
            0 <= k < olds.len() ==> if olds[k].email@ == email {
                record_with_token(olds[k], #[trigger] news[k], t, now_ms)
            } else {
                news[k] == olds[k]
            },
    ensures
        forall|k: int|
            0 <= k < news.len() && #[trigger] olds[k].email@ == email ==> {
                let stored = news[k].account_data.sts_token_manager;
                &&& stored == t
                &&& stored.refresh_token@ == response.refresh_token@
                &&& stored.expiration_time == now_ms + spec_lifetime_seconds(response.expires_in@)
                    * 1000
                &&& (olds[k].account_data.sts_token_manager.refresh_token@
                    != response.refresh_token@ ==> stored.refresh_token@
                    != olds[k].account_data.sts_token_manager.refresh_token@)
            },
        forall|k: int|
            0 <= k < news.len() && #[trigger] olds[k].email@ != email ==> news[k] == olds[k],
{
}

} // verus!
