use vstd::prelude::*;
use crate::context::Context;
use crate::error::Error;

verus! {

/// The auth-token grammar. A cookie value authenticates a caller when it has
/// the shape `user-<digits>.<expiration>.<signature>`: the literal prefix
/// `user-`, a non-empty run of decimal digits, a dot, a non-empty expiration
/// field, the last dot that still leaves a non-empty signature field, and the
/// signature. Expiration and signature are carried along but not validated.
pub open spec fn is_digit_char(c: char) -> bool {
    '0' <= c && c <= '9'
}

/// The first index at or after `i` holding a non-digit (or the end of `s`):
/// the digit run starting at `i` ends there.
pub open spec fn digit_run_end(s: Seq<char>, i: int) -> int
    decreases s.len() - i,
{
    if i < 0 || i >= s.len() || !is_digit_char(s[i]) {
        i
    } else {
        digit_run_end(s, i + 1)
    }
}

/// The largest index `k` with `start <= k < end` and `s[k] == '.'`, or -1 if
/// there is none.
pub open spec fn last_dot_before(s: Seq<char>, start: int, end: int) -> int
    decreases end - start,
{
    if end <= start {
        -1
    } else if s[end - 1] == '.' {
        end - 1
    } else {
        last_dot_before(s, start, end - 1)
    }
}

/// Where the user-id digit run of a token ends.
pub open spec fn uid_end(s: Seq<char>) -> int {
    digit_run_end(s, 5)
}

/// The index of the dot separating expiration from signature: the last dot
/// that still leaves at least one character of signature after it.
pub open spec fn sig_sep(s: Seq<char>) -> int {
    last_dot_before(s, uid_end(s) + 1, s.len() - 1)
}

/// Whether a cookie value is a well-formed auth token.
pub open spec fn token_matches(s: Seq<char>) -> bool {
    &&& s.len() > 5
    &&& s[0] == 'u' && s[1] == 's' && s[2] == 'e' && s[3] == 'r' && s[4] == '-'
    &&& uid_end(s) > 5
    &&& uid_end(s) < s.len() && s[uid_end(s)] == '.'
    &&& sig_sep(s) >= uid_end(s) + 2
}

/// The user-id digits of a well-formed token.
pub open spec fn token_user_digits(s: Seq<char>) -> Seq<char> {
    s.subrange(5, uid_end(s))
}

/// The expiration field of a well-formed token.
pub open spec fn token_expiration(s: Seq<char>) -> Seq<char> {
    s.subrange(uid_end(s) + 1, sig_sep(s))
}

/// The signature field of a well-formed token.
pub open spec fn token_signature(s: Seq<char>) -> Seq<char> {
    s.subrange(sig_sep(s) + 1, s.len() as int)
}

pub open spec fn digit_char_val(c: char) -> int {
    (c as u32) - ('0' as u32)
}

/// The numeric value of a digit string, most significant digit first.
pub open spec fn digits_val(s: Seq<char>) -> int
    decreases s.len(),
{
    if s.len() == 0 {
        0
    } else {
        digits_val(s.drop_last()) * 10 + digit_char_val(s.last())
    }
}

/// A token resolves to a caller when it is well-formed and its user id fits
/// in a `u64` (a wider id is rejected, as numeric parsing rejects it).
pub open spec fn token_resolves(s: Seq<char>) -> bool {
    token_matches(s) && digits_val(token_user_digits(s)) <= u64::MAX
}

pub open spec fn token_user_id(s: Seq<char>) -> int {
    digits_val(token_user_digits(s))
}

proof fn lemma_digits_val_nonneg(s: Seq<char>)
    requires
        forall|i: int| 0 <= i < s.len() ==> is_digit_char(#[trigger] s[i]),
    ensures
        digits_val(s) >= 0,
    decreases s.len(),
{
    if s.len() > 0 {
        lemma_digits_val_nonneg(s.drop_last());
    }
}

/// A digit string's value is at least the value of any of its prefixes.
proof fn lemma_digits_val_prefix_le(s: Seq<char>, m: int)
    requires
        0 <= m <= s.len(),
        forall|i: int| 0 <= i < s.len() ==> is_digit_char(#[trigger] s[i]),
    ensures
        digits_val(s.take(m)) <= digits_val(s),
    decreases s.len() - m,
{
    if m == s.len() {
        assert(s.take(m) =~= s);
    } else {
        lemma_digits_val_prefix_le(s, m + 1);
        let p = s.take(m + 1);
        assert(p.drop_last() =~= s.take(m));
        assert(p.last() == s[m]);
        assert forall|i: int| 0 <= i < s.take(m).len() implies is_digit_char(
            #[trigger] s.take(m)[i],
        ) by {}
        lemma_digits_val_nonneg(s.take(m));
        assert(digits_val(p) == digits_val(s.take(m)) * 10 + digit_char_val(s[m]));
        assert(digits_val(s.take(m)) * 10 >= digits_val(s.take(m)));
    }
}

/// Parse a cookie value against the auth-token grammar. Returns the numeric
/// user id together with the expiration and signature fields exactly when the
/// token resolves; any other input is rejected as an invalid token.
pub fn parse_auth_token(token: String) -> (r: Result<(u64, String, String), Error>)
    ensures
        token_resolves(token@) ==> (r matches Ok(p) && {
            &&& p.0 == token_user_id(token@)
            &&& p.1@ == token_expiration(token@)
            &&& p.2@ == token_signature(token@)
        }),
        !token_resolves(token@) ==> r == Err::<(u64, String, String), Error>(
            Error::AuthFailedInvalidUserIdTokenType,
        ),
{
    let ghost s = token@;
    let n = token.as_str().unicode_len();
    if n <= 5 {
        return Err(Error::AuthFailedInvalidUserIdTokenType);
    }
    if !(token.as_str().get_char(0) == 'u' && token.as_str().get_char(1) == 's'
        && token.as_str().get_char(2) == 'e' && token.as_str().get_char(3) == 'r'
        && token.as_str().get_char(4) == '-') {
        return Err(Error::AuthFailedInvalidUserIdTokenType);
    }
    // the user-id digit run
    let mut d: usize = 5;
    loop
        invariant_except_break
            5 <= d <= n,
            n == s.len(),
            token@ == s,
            forall|j: int| 5 <= j < d ==> is_digit_char(#[trigger] s[j]),
            digit_run_end(s, 5) == digit_run_end(s, d as int),
        ensures
            5 <= d <= n,
            forall|j: int| 5 <= j < d ==> is_digit_char(#[trigger] s[j]),
            digit_run_end(s, 5) == d as int,
        decreases n - d,
    {
        if d >= n {
            proof {
                assert(digit_run_end(s, d as int) == d as int);
            }
            break ;
        }
        let c = token.as_str().get_char(d);
        if !('0' <= c && c <= '9') {
            proof {
                assert(!is_digit_char(s[d as int]));
                assert(digit_run_end(s, d as int) == d as int);
            }
            break ;
        }
        proof {
            assert(digit_run_end(s, d as int) == digit_run_end(s, d as int + 1));
        }
        d += 1;
    }
    proof {
        assert(uid_end(s) == d as int);
    }
    if d == 5 {
        return Err(Error::AuthFailedInvalidUserIdTokenType);
    }
    if d >= n || token.as_str().get_char(d) != '.' {
        return Err(Error::AuthFailedInvalidUserIdTokenType);
    }
    // the separator between expiration and signature
    let mut end: usize = n - 1;
    let mut sep: usize = 0;
    let mut sep_found = false;
    loop
        invariant_except_break
            n == s.len(),
            token@ == s,
            5 <= d < n,
            end <= n - 1,
            !sep_found,
            last_dot_before(s, d as int + 1, n as int - 1) == last_dot_before(
                s,
                d as int + 1,
                end as int,
            ),
        ensures
            sep_found ==> (d + 1 <= sep <= n - 2 && last_dot_before(s, d as int + 1, n as int - 1)
                == sep as int),
            !sep_found ==> last_dot_before(s, d as int + 1, n as int - 1) == -1,
        decreases end,
    {
        if end <= d + 1 {
            proof {
                assert(last_dot_before(s, d as int + 1, end as int) == -1);
            }
            break ;
        }
        let c = token.as_str().get_char(end - 1);
        if c == '.' {
            sep = end - 1;
            sep_found = true;
            proof {
                assert(last_dot_before(s, d as int + 1, end as int) == end - 1);
            }
            break ;
        }
        proof {
            assert(last_dot_before(s, d as int + 1, end as int) == last_dot_before(
                s,
                d as int + 1,
                end as int - 1,
            ));
        }
        end -= 1;
    }
    if !sep_found {
        proof {
            assert(sig_sep(s) == -1);
        }
        return Err(Error::AuthFailedInvalidUserIdTokenType);
    }
    proof {
        assert(sig_sep(s) == sep as int);
    }
    if sep < d + 2 {
        return Err(Error::AuthFailedInvalidUserIdTokenType);
    }
    assert(token_matches(s));
    // numeric value of the digit run, rejecting values beyond u64
    let ghost digits = token_user_digits(s);
    let mut uid: u64 = 0;
    let mut k: usize = 5;
    while k < d
        invariant
            5 <= k <= d,
            d <= n == s.len(),
            token@ == s,
            forall|j: int| 5 <= j < d ==> is_digit_char(#[trigger] s[j]),
            token_matches(s),
            uid_end(s) == d as int,
            digits == s.subrange(5, d as int),
            uid == digits_val(s.subrange(5, k as int)),
        decreases d - k,
    {
        let c = token.as_str().get_char(k);
        let dv: u64 = (c as u32 - 48) as u64;
        proof {
            assert(is_digit_char(s[k as int]));
            assert(dv == digit_char_val(s[k as int]));
            assert(dv <= 9);
            assert(s.subrange(5, k as int + 1).drop_last() =~= s.subrange(5, k as int));
            assert(s.subrange(5, k as int + 1).last() == s[k as int]);
            assert(digits_val(s.subrange(5, k as int + 1)) == uid * 10 + dv);
        }
        if uid > (u64::MAX - dv) / 10 {
            proof {
                let lo = (u64::MAX - dv) as int;
                assert(uid * 10 + dv > u64::MAX) by (nonlinear_arith)
                    requires
                        uid > lo / 10,
                        lo == u64::MAX - dv,
                        0 <= dv <= 9,
                {}
                assert forall|i: int| 0 <= i < digits.len() implies is_digit_char(
                    #[trigger] digits[i],
                ) by {}
                lemma_digits_val_prefix_le(digits, k as int + 1 - 5);
                assert(digits.take(k as int + 1 - 5) =~= s.subrange(5, k as int + 1));
                assert(digits_val(digits) > u64::MAX);
            }
            return Err(Error::AuthFailedInvalidUserIdTokenType);
        }
        proof {
            let q = (u64::MAX - dv) as int;
            assert(uid * 10 + dv <= u64::MAX) by (nonlinear_arith)
                requires
                    0 <= uid <= q / 10,
                    q == u64::MAX - dv,
                    0 <= dv <= 9,
            {}
        }
        uid = uid * 10 + dv;
        k += 1;
    }
    proof {
        assert(s.subrange(5, d as int) == digits);
        assert(uid == token_user_id(s));
    }
    let expiration = token.as_str().substring_char(d + 1, sep).to_owned();
    let signature = token.as_str().substring_char(sep + 1, n).to_owned();
    Ok((uid, expiration, signature))
}

/// What context extraction yields from the stashed resolution outcome: the
/// outcome itself, or `AuthFailedEmptyCookie` when resolution never ran.
pub open spec fn spec_extract_context(stash: Option<Result<Context, Error>>) -> Result<
    Context,
    Error,
> {
    match stash {
        None => Err(Error::AuthFailedEmptyCookie),
        Some(outcome) => outcome,
    }
}

/// Request-scoped context lookup: hand back the resolver's stashed outcome,
/// or report that resolution never ran.
pub fn extract_context(stash: Option<Result<Context, Error>>) -> (r: Result<Context, Error>)
    ensures
        r == spec_extract_context(stash),
{
    match stash {
        None => Err(Error::AuthFailedEmptyCookie),
        Some(outcome) => outcome,
    }
}

/// Context resolution, run once per request ahead of routing: derive the
/// caller's context from the auth cookie (absent cookie and malformed token
/// fail differently), and say whether the stale cookie should be cleared from
/// the response (it is exactly when the cookie was missing, not when the
/// token merely failed to parse).
pub fn middleware_context_resolve(cookie: Option<String>) -> (r: (Result<Context, Error>, bool))
    ensures
        cookie is None ==> r == (
            Err::<Context, Error>(Error::AuthFailedEmptyTokenCookie),
            true,
        ),
        cookie matches Some(t) ==> ({
            &&& token_resolves(t@) ==> r == (
                Ok::<Context, Error>(Context { user_id: token_user_id(t@) as u64 }),
                false,
            )
            &&& !token_resolves(t@) ==> r == (
                Err::<Context, Error>(Error::AuthFailedInvalidUserIdTokenType),
                false,
            )
        }),
{
    let ctx = match cookie {
        None => Err(Error::AuthFailedEmptyTokenCookie),
        Some(token) => match parse_auth_token(token) {
            Ok((user_id, _expiration, _signature)) => Ok(Context::new(user_id)),
            Err(e) => Err(e),
        },
    };
    let clear_cookie = match &ctx {
        Ok(_) => false,
        Err(Error::AuthFailedInvalidUserIdTokenType) => false,
        Err(_) => true,
    };
    (ctx, clear_cookie)
}

/// The auth gate for routes that require a caller: the request proceeds
/// exactly when resolution succeeded; any failure is propagated unchanged as
/// the request's service error.
pub fn middleware_require_auth(ctx: Result<Context, Error>) -> (r: Result<(), Error>)
    ensures
        ctx matches Ok(c) ==> r == Ok::<(), Error>(()),
        ctx matches Err(e) ==> r == Err::<(), Error>(e),
{
    match ctx {
        Ok(_) => Ok(()),
        Err(e) => Err(e),
    }
}

/// Gate law: a request to an auth-gated route without a prior successful
/// resolution — nothing stashed, or a stashed resolution failure — extracts
/// to an error that the mapping table answers with 401 and `NO_AUTH`.
pub proof fn lemma_unresolved_yields_no_auth(stash: Option<Result<Context, Error>>)
    requires
        stash matches Some(outcome) ==> (outcome matches Err(e) && (e
            == Error::AuthFailedEmptyTokenCookie || e == Error::AuthFailedInvalidUserIdTokenType)),
    ensures
        spec_extract_context(stash) matches Err(e) && e.spec_client_status_and_error() == (
            401u16,
            crate::error::ClientError::NO_AUTH,
        ),
{
}

} // verus!
