//! Auth-token parsing and the two auth middleware decisions.
//!
//! A token has the shape `user-<digits>.<expiration>.<signature>`: the literal
//! prefix `user-`, a non-empty digit run, a dot, a non-empty expiration field
//! (which may itself contain dots: the signature starts after the last dot),
//! a dot, and a non-empty signature field; no field may contain a newline.
//! Expiration and signature are captured but not validated (a documented gap,
//! kept as is). Context resolution turns the optional cookie value into a
//! stored success-or-failure context and decides whether the cookie must be
//! cleared; auth enforcement only reads what resolution stored.

use vstd::prelude::*;
use vstd::string::StrSliceExecFns;
use vstd::string::StringExecFns;

use crate::ctx::Ctx;
use crate::error::Error;

verus! {

/// The fixed name of the authentication cookie.
pub fn auth_token_cookie_name() -> (r: &'static str)
    ensures
        r@ == "auth-token"@,
{
    "auth-token"
}

pub open spec fn spec_is_digit(c: char) -> bool {
    '0' <= c && c <= '9'
}

/// The numeric value of a digit character.
pub open spec fn digit_val(c: char) -> nat {
    if spec_is_digit(c) {
        (c as int - '0' as int) as nat
    } else {
        0
    }
}

/// The value of a digit run, most significant digit first.
pub open spec fn digits_value(ds: Seq<char>) -> nat
    decreases ds.len(),
{
    if ds.len() == 0 {
        0
    } else {
        digits_value(ds.drop_last()) * 10 + digit_val(ds.last())
    }
}

/// The token shape with the end of the digit run at `i` (a dot) and the last
/// dot at `j`: `user-` at the front, digits on `[5, i)`, the expiration on
/// `(i, j)`, the signature on `(j, len)`; both fields non-empty and free of
/// newlines, the signature free of dots (it starts after the last one).
pub open spec fn token_matches_at(s: Seq<char>, i: int, j: int) -> bool {
    &&& s[0] == 'u'
    &&& s[1] == 's'
    &&& s[2] == 'e'
    &&& s[3] == 'r'
    &&& s[4] == '-'
    &&& 6 <= i
    &&& i + 2 <= j
    &&& j + 2 <= s.len()
    &&& forall|k: int| 5 <= k < i ==> spec_is_digit(#[trigger] s[k])
    &&& s[i] == '.'
    &&& s[j] == '.'
    &&& forall|k: int| i < k < j ==> #[trigger] s[k] != '\n'
    &&& forall|k: int| j < k < s.len() ==> #[trigger] s[k] != '\n' && s[k] != '.'
}

/// The token has the expected shape somewhere.
pub open spec fn token_shape(s: Seq<char>) -> bool {
    exists|i: int, j: int| token_matches_at(s, i, j)
}

/// The (unique) pair of split points of a well-shaped token.
pub open spec fn token_dots(s: Seq<char>) -> (int, int) {
    choose|i: int, j: int| token_matches_at(s, i, j)
}

/// The user id a well-shaped token carries (as an unbounded number; it may
/// exceed what fits in the id type, which parsing rejects).
pub open spec fn token_user_id(s: Seq<char>) -> nat {
    digits_value(s.subrange(5, token_dots(s).0))
}

/// The expiration field of a well-shaped token.
pub open spec fn token_exp(s: Seq<char>) -> Seq<char> {
    s.subrange(token_dots(s).0 + 1, token_dots(s).1)
}

/// The signature field of a well-shaped token.
pub open spec fn token_sig(s: Seq<char>) -> Seq<char> {
    s.subrange(token_dots(s).1 + 1, s.len() as int)
}

/// A token parses successfully: it has the shape and its user id fits.
pub open spec fn token_ok(s: Seq<char>) -> bool {
    token_shape(s) && token_user_id(s) <= u64::MAX
}

/// The split points of a well-shaped token are unique: the digit run ends at
/// the first non-digit (which must be the dot at `i`), and the signature
/// starts after the last dot `j`.
proof fn lemma_token_match_unique(s: Seq<char>, i1: int, j1: int, i2: int, j2: int)
    requires
        token_matches_at(s, i1, j1),
        token_matches_at(s, i2, j2),
    ensures
        i1 == i2,
        j1 == j2,
{
    assert(!spec_is_digit('.'));
    if i1 < i2 {
        assert(spec_is_digit(s[i1]));
        assert(s[i1] == '.');
    }
    if i2 < i1 {
        assert(spec_is_digit(s[i2]));
        assert(s[i2] == '.');
    }
    if j1 < j2 {
        assert(s[j2] == '.');
        assert(s[j2] != '.');
    }
    if j2 < j1 {
        assert(s[j1] == '.');
        assert(s[j1] != '.');
    }
}

/// If the digit run starting at 5 ends at `i` (exclusive), any match of the
/// token shape has its first split point exactly there.
proof fn lemma_first_dot_determined(s: Seq<char>, i: int, i0: int, j0: int)
    requires
        token_matches_at(s, i0, j0),
        5 <= i <= s.len(),
        forall|k: int| 5 <= k < i ==> spec_is_digit(#[trigger] s[k]),
        i < s.len() ==> !spec_is_digit(s[i]),
    ensures
        i0 == i,
{
    assert(!spec_is_digit('.'));
    if i0 < i {
        assert(spec_is_digit(s[i0]));
        assert(s[i0] == '.');
    }
    if i < i0 {
        assert(i < s.len());
        assert(spec_is_digit(s[i]));
    }
}

/// If additionally `j` is the last dot of the token and lies after `i`, any
/// match has exactly the split points `(i, j)`.
proof fn lemma_dots_determined(s: Seq<char>, i: int, j: int, i0: int, j0: int)
    requires
        token_matches_at(s, i0, j0),
        5 <= i <= s.len(),
        forall|k: int| 5 <= k < i ==> spec_is_digit(#[trigger] s[k]),
        i < s.len() ==> !spec_is_digit(s[i]),
        i < j < s.len(),
        s[j] == '.',
        forall|m: int| j < m < s.len() ==> #[trigger] s[m] != '.',
    ensures
        i0 == i,
        j0 == j,
{
    lemma_first_dot_determined(s, i, i0, j0);
    if j0 < j {
        assert(s[j] == '.');
        assert(s[j] != '.');
    }
    if j < j0 {
        assert(s[j0] == '.');
        assert(s[j0] != '.');
    }
}

/// The value of a digit run never shrinks when digits are appended.
proof fn lemma_digits_value_take_le(ds: Seq<char>, m: int)
    requires
        0 <= m <= ds.len(),
    ensures
        digits_value(ds.take(m)) <= digits_value(ds),
    decreases ds.len() - m,
{
    if m == ds.len() {
        assert(ds.take(m) =~= ds);
    } else {
        assert(ds.take(m + 1).drop_last() =~= ds.take(m));
        assert(digits_value(ds.take(m + 1)) == digits_value(ds.take(m)) * 10 + digit_val(
            ds.take(m + 1).last(),
        ));
        assert(digits_value(ds.take(m)) * 10 >= digits_value(ds.take(m)));
        lemma_digits_value_take_le(ds, m + 1);
    }
}

fn is_digit_char(c: char) -> (r: bool)
    ensures
        r == spec_is_digit(c),
{
    '0' <= c && c <= '9'
}

/// Parse a token of the shape `user-<digits>.<expiration>.<signature>`.
/// Returns the user id and the (unvalidated) expiration and signature fields,
/// or the malformed-token error exactly when the value does not have the
/// shape or its digit run exceeds the id type.
#[verifier::loop_isolation(false)]
pub fn parse_token(token: &str) -> (r: Result<(u64, String, String), Error>)
    ensures
        token_ok(token@) ==> (r matches Ok(t) && t.0 == token_user_id(token@) && t.1@ == token_exp(
            token@,
        ) && t.2@ == token_sig(token@)),
        !token_ok(token@) ==> (r matches Err(e) && e == Error::AuthFailTokenWrongFormat),
{
    let ghost s = token@;
    let n = token.unicode_len();
    if n < 10 {
        proof {
            if token_shape(s) {
                let (i0, j0) = token_dots(s);
                assert(token_matches_at(s, i0, j0));
            }
        }
        return Err(Error::AuthFailTokenWrongFormat);
    }
    if !(token.get_char(0) == 'u' && token.get_char(1) == 's' && token.get_char(2) == 'e'
        && token.get_char(3) == 'r' && token.get_char(4) == '-') {
        proof {
            if token_shape(s) {
                let (i0, j0) = token_dots(s);
                assert(token_matches_at(s, i0, j0));
            }
        }
        return Err(Error::AuthFailTokenWrongFormat);
    }
    // End of the digit run that starts after `user-`.
    let mut i: usize = 5;
    while i < n && is_digit_char(token.get_char(i))
        invariant
            5 <= i <= n,
            n == s.len(),
            forall|k: int| 5 <= k < i ==> spec_is_digit(#[trigger] s[k]),
        decreases n - i,
    {
        i = i + 1;
    }
    if i == 5 || i == n || !(token.get_char(i) == '.') {
        proof {
            if token_shape(s) {
                let (i0, j0) = token_dots(s);
                assert(token_matches_at(s, i0, j0));
                lemma_first_dot_determined(s, i as int, i0, j0);
            }
        }
        return Err(Error::AuthFailTokenWrongFormat);
    }
    // Last dot after `i`, and whether any field holds a newline.
    let mut j: usize = 0;
    let mut found = false;
    let mut nl = false;
    let mut k = i + 1;
    while k < n
        invariant
            i + 1 <= k <= n,
            n == s.len(),
            i < n,
            !found ==> forall|m: int| i < m < k ==> #[trigger] s[m] != '.',
            found ==> i < j < k && s[j as int] == '.' && (forall|m: int|
                j < m < k ==> #[trigger] s[m] != '.'),
            !nl ==> forall|m: int| i < m < k ==> #[trigger] s[m] != '\n',
            nl ==> exists|m: int| i < m < k && #[trigger] s[m] == '\n',
        decreases n - k,
    {
        let c = token.get_char(k);
        if c == '.' {
            j = k;
            found = true;
        }
        if c == '\n' {
            nl = true;
        }
        k = k + 1;
    }
    if !found || j - i < 2 || j + 1 >= n || nl {
        proof {
            if token_shape(s) {
                let (i0, j0) = token_dots(s);
                assert(token_matches_at(s, i0, j0));
                if !found {
                    lemma_first_dot_determined(s, i as int, i0, j0);
                    assert(s[j0] == '.');
                    assert(s[j0] != '.');
                } else {
                    lemma_dots_determined(s, i as int, j as int, i0, j0);
                    if nl {
                        let m = choose|m: int| i < m < n && #[trigger] s[m] == '\n';
                        assert(s[m] != '.');
                        assert(s[m] != '\n');
                    }
                }
            }
        }
        return Err(Error::AuthFailTokenWrongFormat);
    }
    proof {
        assert(token_matches_at(s, i as int, j as int));
        let (i0, j0) = token_dots(s);
        assert(token_matches_at(s, i0, j0));
        lemma_dots_determined(s, i as int, j as int, i0, j0);
        assert(token_user_id(s) == digits_value(s.subrange(5, i as int)));
    }
    // Digit run value, rejecting overflow of the id type.
    let ghost ds = s.subrange(5, i as int);
    let mut acc: u64 = 0;
    let mut p: usize = 5;
    while p < i
        invariant
            5 <= p <= i <= n,
            n == s.len(),
            forall|k2: int| 5 <= k2 < i ==> spec_is_digit(#[trigger] s[k2]),
            ds == s.subrange(5, i as int),
            acc == digits_value(s.subrange(5, p as int)),
        decreases i - p,
    {
        let c = token.get_char(p);
        let d = (c as u32 - 48) as u64;
        proof {
            assert(spec_is_digit(s[p as int]));
            assert(d == digit_val(s[p as int]));
        }
        let bound = (u64::MAX - d) / 10;
        proof {
            assert(s.subrange(5, p + 1).drop_last() =~= s.subrange(5, p as int));
            assert(s.subrange(5, p + 1).last() == s[p as int]);
            assert(digits_value(s.subrange(5, p + 1)) == digits_value(s.subrange(5, p as int)) * 10
                + digit_val(s[p as int]));
        }
        if acc > bound {
            proof {
                assert(acc * 10 + d > u64::MAX) by (nonlinear_arith)
                    requires
                        acc > (u64::MAX - d) / 10,
                        d <= 9,
                ;
                assert(digits_value(s.subrange(5, p + 1)) > u64::MAX);
                assert(ds.take(p + 1 - 5) =~= s.subrange(5, p + 1));
                lemma_digits_value_take_le(ds, p + 1 - 5);
                assert(token_user_id(s) > u64::MAX);
            }
            return Err(Error::AuthFailTokenWrongFormat);
        }
        proof {
            assert(acc * 10 + d <= u64::MAX) by (nonlinear_arith)
                requires
                    acc <= (u64::MAX - d) / 10,
                    d <= 9,
            ;
        }
        acc = acc * 10 + d;
        p = p + 1;
    }
    let exp = String::from_str(token.substring_char(i + 1, j));
    let sig = String::from_str(token.substring_char(j + 1, n));
    Ok((acc, exp, sig))
}

/// What context resolution computed: the success-or-failure context to stash
/// on the request, and whether the auth cookie must be removed from the
/// response (it is exactly when the cookie was present but malformed).
pub struct CtxResolution {
    pub ctx: Result<Ctx, Error>,
    pub remove_cookie: bool,
}

/// Resolve the optional auth-cookie value into a stored context result. A
/// missing cookie fails with the missing-cookie error and is left alone; a
/// present but malformed value fails with the malformed-token error and asks
/// for the cookie's removal; a well-formed value yields the context carrying
/// the token's user id. Resolution itself never rejects the request: only the
/// stored value may be an error.
pub fn mw_ctx_resolver(auth_token: Option<String>) -> (r: CtxResolution)
    ensures
        auth_token is None ==> (r.ctx matches Err(e) && e == Error::AuthFailNoAuthTokenCookie)
            && !r.remove_cookie,
        auth_token matches Some(tok) ==> {
            &&& token_ok(tok@) ==> (r.ctx matches Ok(c) && c@ == token_user_id(tok@))
                && !r.remove_cookie
            &&& !token_ok(tok@) ==> (r.ctx matches Err(e) && e
                == Error::AuthFailTokenWrongFormat) && r.remove_cookie
        },
{
    match auth_token {
        None => CtxResolution { ctx: Err(Error::AuthFailNoAuthTokenCookie), remove_cookie: false },
        Some(tok) => match parse_token(tok.as_str()) {
            Ok(parsed) => CtxResolution { ctx: Ok(Ctx::new(parsed.0)), remove_cookie: false },
            Err(e) => CtxResolution { ctx: Err(e), remove_cookie: true },
        },
    }
}

/// Extract the context a request carries: the value context resolution stored
/// in the request's state, or the context-missing error when nothing was
/// stored (success is cloned, a stored failure propagates as is).
pub fn ctx_from_request_ext(stored: Option<&Result<Ctx, Error>>) -> (r: Result<Ctx, Error>)
    ensures
        stored is None ==> (r matches Err(e) && e == Error::AuthFailCtxNotInRequestExt),
        stored matches Some(res) ==> r == *res,
{
    match stored {
        None => Err(Error::AuthFailCtxNotInRequestExt),
        Some(res) => match res {
            Ok(c) => Ok(*c),
            Err(e) => Err(*e),
        },
    }
}

/// The auth-enforcement decision for a protected route: the wrapped handler
/// may run exactly when a valid context was resolved; otherwise the pipeline
/// short-circuits with the resolution's failure. Enforcement never inspects
/// cookies itself: it only trusts what resolution already computed.
pub fn mw_require_auth(ctx: &Result<Ctx, Error>) -> (r: Result<(), Error>)
    ensures
        r is Ok <==> ctx is Ok,
        ctx matches Err(e) ==> (r matches Err(e2) && e2 == e),
{
    match ctx {
        Ok(_) => Ok(()),
        Err(e) => Err(*e),
    }
}

} // verus!
