use vstd::prelude::*;

verus! {

/// Default token lifetime in seconds, used when the provider's
/// `expires_in` field cannot be parsed.
pub const DEFAULT_LIFETIME_SECONDS: i64 = 3600;

/// Safety margin in milliseconds: a token is treated as expiring soon
/// one minute before its actual expiry.
pub const EXPIRY_MARGIN_MILLIS: i64 = 60000;

/// The token bundle stored for one account: a short-lived access token,
/// its single-use rotation refresh token, and the absolute expiry of the
/// access token in epoch milliseconds.
pub struct TokenManager {
    pub access_token: String,
    pub refresh_token: String,
    pub expiration_time: i64,
}

impl Clone for TokenManager {
    fn clone(&self) -> (r: Self)
        ensures
            r == *self,
    {
        TokenManager {
            access_token: self.access_token.clone(),
            refresh_token: self.refresh_token.clone(),
            expiration_time: self.expiration_time,
        }
    }
}

/// The identity provider's answer to a refresh-grant request. The token
/// lifetime arrives as a string-encoded number of seconds.
pub struct RefreshTokenResponse {
    pub access_token: String,
    pub refresh_token: String,
    pub expires_in: String,
}

pub open spec fn is_digit_char(c: char) -> bool {
    48 <= c as u32 && c as u32 <= 57
}

pub open spec fn digit_val(c: char) -> int {
    c as u32 - 48
}

pub open spec fn all_digits(s: Seq<char>) -> bool {
    forall|i: int| 0 <= i < s.len() ==> is_digit_char(s[i])
}

/// The value of a sequence of decimal digits, most significant first.
pub open spec fn dec_value(s: Seq<char>) -> int
    decreases s.len(),
{
    if s.len() == 0 {
        0
    } else {
        dec_value(s.drop_last()) * 10 + digit_val(s.last())
    }
}

pub open spec fn spec_parse_signed(body: Seq<char>, neg: bool) -> Option<int> {
    if body.len() > 0 && all_digits(body) {
        if neg {
            if -dec_value(body) >= i64::MIN {
                Some(-dec_value(body))
            } else {
                None
            }
        } else {
            if dec_value(body) <= i64::MAX {
                Some(dec_value(body))
            } else {
                None
            }
        }
    } else {
        None
    }
}

/// The number denoted by `s` as a signed 64-bit decimal: an optional sign,
/// then one or more digits, with the value in range; anything else is no
/// number.
pub open spec fn spec_parse_i64(s: Seq<char>) -> Option<int> {
    if s.len() > 0 && (s[0] == '+' || s[0] == '-') {
        spec_parse_signed(s.skip(1), s[0] == '-')
    } else {
        spec_parse_signed(s, false)
    }
}

proof fn lemma_dec_value_nonneg(s: Seq<char>)
    requires
        all_digits(s),
    ensures
        dec_value(s) >= 0,
    decreases s.len(),
{
    if s.len() > 0 {
        assert(all_digits(s.drop_last()));
        lemma_dec_value_nonneg(s.drop_last());
        assert(dec_value(s.drop_last()) * 10 >= 0) by (nonlinear_arith)
            requires dec_value(s.drop_last()) >= 0;
    }
}

/// Parses the decimal digits of `s` starting at `start`, all the way to the
/// end, reporting the value if it stays within `bound`.
fn parse_digits(s: &str, start: usize, bound: u64) -> (r: Option<u64>)
    requires
        start < s@.len(),
        bound == 9223372036854775807u64 || bound == 9223372036854775808u64,
    ensures
        ({
            let body = s@.subrange(start as int, s@.len() as int);
            match r {
                Some(v) => all_digits(body) && v as int == dec_value(body) && v <= bound,
                None => !all_digits(body) || dec_value(body) > bound,
            }
        }),
{
    let len = s.unicode_len();
    let mut i: usize = start;
    let mut acc: u64 = 0;
    let mut over: bool = false;
    proof {
        assert(s@.subrange(start as int, start as int) =~= Seq::<char>::empty());
    }
    while i < len
        invariant
            start <= i <= len,
            len == s@.len(),
            bound == 9223372036854775807u64 || bound == 9223372036854775808u64,
            forall|j: int| start <= j < i ==> is_digit_char(s@[j]),
            !over ==> acc as int == dec_value(s@.subrange(start as int, i as int)) && acc
                <= bound,
            over ==> dec_value(s@.subrange(start as int, i as int)) > bound,
        decreases len - i,
    {
        let c = s.get_char(i);
        let cu = c as u32;
        if !(48 <= cu && cu <= 57) {
            proof {
                let body = s@.subrange(start as int, s@.len() as int);
                assert(body[i - start] == s@[i as int]);
                assert(!all_digits(body));
            }
            return None;
        }
        let d: u64 = (cu - 48) as u64;
        let ghost pre = s@.subrange(start as int, i as int);
        let ghost pre2 = s@.subrange(start as int, i + 1);
        proof {
            assert(pre2.drop_last() =~= pre);
            assert(pre2.last() == s@[i as int]);
            assert(dec_value(pre2) == dec_value(pre) * 10 + digit_val(s@[i as int]));
        }
        if over {
            proof {
                assert(dec_value(pre) * 10 >= dec_value(pre)) by (nonlinear_arith)
                    requires dec_value(pre) > 0;
                assert(dec_value(pre2) > bound);
            }
        } else {
            let limit = (bound - d) / 10;
            proof {
                let b = (bound - d) as int;
                assert(b == 10 * (b / 10) + b % 10);
                assert(0 <= b % 10 < 10);
            }
            if acc > limit {
                over = true;
                proof {
                    assert(acc as int * 10 + d as int > bound) by {
                        let b = (bound - d) as int;
                        let q = b / 10;
                        assert(acc as int >= q + 1);
                        assert(acc as int * 10 >= (q + 1) * 10) by (nonlinear_arith)
                            requires acc as int >= q + 1;
                        assert((q + 1) * 10 == 10 * q + 10);
                        assert(10 * q + 10 > b);
                    }
                    assert(dec_value(pre2) > bound);
                }
            } else {
                proof {
                    assert(acc as int * 10 + d as int <= bound) by {
                        let b = (bound - d) as int;
                        let q = b / 10;
                        assert(acc as int <= q);
                        assert(acc as int * 10 <= q * 10) by (nonlinear_arith)
                            requires acc as int <= q;
                        assert(q * 10 <= b);
                    }
                }
                acc = acc * 10 + d;
                proof {
                    assert(acc as int == dec_value(pre2));
                }
            }
        }
        i += 1;
    }
    proof {
        assert(s@.subrange(start as int, len as int) =~= s@.subrange(
            start as int,
            s@.len() as int,
        ));
    }
    if over {
        None
    } else {
        Some(acc)
    }
}

/// Parses `s` as a signed 64-bit decimal number, exactly when
/// `spec_parse_i64` gives it a value.
pub fn parse_i64(s: &str) -> (r: Option<i64>)
    ensures
        match r {
            Some(v) => spec_parse_i64(s@) == Some(v as int),
            None => spec_parse_i64(s@) is None,
        },
{
    let len = s.unicode_len();
    if len == 0 {
        return None;
    }
    let first = s.get_char(0);
    let neg = first == '-';
    let has_sign = neg || first == '+';
    let start: usize = if has_sign { 1 } else { 0 };
    if start >= len {
        return None;
    }
    let bound: u64 = if neg {
        9223372036854775808
    } else {
        9223372036854775807
    };
    let digits = parse_digits(s, start, bound);
    proof {
        if has_sign {
            assert(s@.skip(1) =~= s@.subrange(1, s@.len() as int));
        } else {
            assert(s@.subrange(0, s@.len() as int) =~= s@);
        }
        let body = s@.subrange(start as int, s@.len() as int);
        if all_digits(body) {
            lemma_dec_value_nonneg(body);
        }
    }
    match digits {
        Some(v) => {
            if neg {
                if v == 9223372036854775808 {
                    Some(i64::MIN)
                } else {
                    Some(-(v as i64))
                }
            } else {
                Some(v as i64)
            }
        },
        None => None,
    }
}

/// The declared token lifetime in seconds: the parsed `expires_in` value,
/// or the default when it does not parse as a number.
pub open spec fn spec_lifetime_seconds(s: Seq<char>) -> int {
    match spec_parse_i64(s) {
        Some(v) => v,
        None => DEFAULT_LIFETIME_SECONDS as int,
    }
}

pub fn parse_lifetime_seconds(s: &str) -> (r: i64)
    ensures
        r as int == spec_lifetime_seconds(s@),
{
    match parse_i64(s) {
        Some(v) => v,
        None => DEFAULT_LIFETIME_SECONDS,
    }
}

pub open spec fn clamp_i64(v: int) -> int {
    if v > i64::MAX {
        i64::MAX as int
    } else if v < i64::MIN {
        i64::MIN as int
    } else {
        v
    }
}

/// The expiry of a token issued at `now_ms` with the given lifetime:
/// `now_ms + lifetime * 1000`, saturated at the 64-bit range.
pub open spec fn spec_expiry(now_ms: int, lifetime_seconds: int) -> int {
    clamp_i64(now_ms + lifetime_seconds * 1000)
}

pub fn compute_expiry(now_ms: i64, lifetime_seconds: i64) -> (r: i64)
    ensures
        r as int == spec_expiry(now_ms as int, lifetime_seconds as int),
{
    let wide: i128 = (now_ms as i128) + (lifetime_seconds as i128) * 1000;
    if wide > i64::MAX as i128 {
        i64::MAX
    } else if wide < i64::MIN as i128 {
        i64::MIN
    } else {
        wide as i64
    }
}

/// Whether a token with the given expiry counts as expiring soon at
/// `now_ms`: true exactly when `now_ms >= expiration_time - 60000`.
pub open spec fn spec_expiring_soon(expiration_time: int, now_ms: int) -> bool {
    now_ms >= expiration_time - EXPIRY_MARGIN_MILLIS
}

pub fn is_expiring_soon(expiration_time: i64, now_ms: i64) -> (r: bool)
    ensures
        r == spec_expiring_soon(expiration_time as int, now_ms as int),
{
    (now_ms as i128) + (EXPIRY_MARGIN_MILLIS as i128) >= expiration_time as i128
}

/// The expiry a refresh performed at `now_ms` assigns, given the
/// provider's string-encoded lifetime.
pub open spec fn spec_refreshed_expiry(expires_in: Seq<char>, now_ms: int) -> int {
    spec_expiry(now_ms, spec_lifetime_seconds(expires_in))
}

/// Builds the new token bundle from a refresh response: the returned
/// tokens are taken verbatim, and the expiry derives from the declared
/// lifetime at the moment of issuance.
pub fn token_from_refresh_response(resp: &RefreshTokenResponse, now_ms: i64) -> (t: TokenManager)
    ensures
        t.access_token@ == resp.access_token@,
        t.refresh_token@ == resp.refresh_token@,
        t.expiration_time as int == spec_refreshed_expiry(resp.expires_in@, now_ms as int),
{
    let secs = parse_lifetime_seconds(resp.expires_in.as_str());
    TokenManager {
        access_token: resp.access_token.clone(),
        refresh_token: resp.refresh_token.clone(),
        expiration_time: compute_expiry(now_ms, secs),
    }
}

} // verus!
