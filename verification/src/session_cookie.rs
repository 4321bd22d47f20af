//! The session cookie a successful login answers with.
//!
//! The cookie is HttpOnly and SameSite=Strict, scoped to the `/api` path,
//! lives two weeks, and carries the Secure attribute when the deployment
//! says transport is secure. Its value is the session identifier in decimal.
//! The header string itself is assembled by the `cookie` crate.

use vstd::prelude::*;

use crate::auth::SessionId;

verus! {

/// The decimal digit character for `d`.
pub open spec fn spec_digit_char(d: nat) -> char {
    if d == 0 {
        '0'
    } else if d == 1 {
        '1'
    } else if d == 2 {
        '2'
    } else if d == 3 {
        '3'
    } else if d == 4 {
        '4'
    } else if d == 5 {
        '5'
    } else if d == 6 {
        '6'
    } else if d == 7 {
        '7'
    } else if d == 8 {
        '8'
    } else {
        '9'
    }
}

/// The decimal rendering of `n`, most significant digit first, no sign and
/// no leading zeros.
pub open spec fn spec_dec_str(n: nat) -> Seq<char>
    decreases n,
{
    if n < 10 {
        seq![spec_digit_char(n)]
    } else {
        spec_dec_str(n / 10).push(spec_digit_char(n % 10))
    }
}

/// The digit character for `d`, as a one-character string slice.
fn digit_str(d: u64) -> (r: &'static str)
    requires
        d < 10,
    ensures
        r@ =~= seq![spec_digit_char(d as nat)],
{
    proof {
        reveal_strlit("0");
        reveal_strlit("1");
        reveal_strlit("2");
        reveal_strlit("3");
        reveal_strlit("4");
        reveal_strlit("5");
        reveal_strlit("6");
        reveal_strlit("7");
        reveal_strlit("8");
        reveal_strlit("9");
    }
    if d == 0 {
        "0"
    } else if d == 1 {
        "1"
    } else if d == 2 {
        "2"
    } else if d == 3 {
        "3"
    } else if d == 4 {
        "4"
    } else if d == 5 {
        "5"
    } else if d == 6 {
        "6"
    } else if d == 7 {
        "7"
    } else if d == 8 {
        "8"
    } else {
        "9"
    }
}

/// Renders `n` in decimal.
pub fn u64_to_string(n: u64) -> (r: String)
    ensures
        r@ == spec_dec_str(n as nat),
    decreases n,
{
    if n < 10 {
        digit_str(n).to_owned()
    } else {
        proof {
            assert(n / 10 < n) by (nonlinear_arith)
                requires
                    n >= 10,
            ;
        }
        let mut s = u64_to_string(n / 10);
        let d = digit_str(n % 10);
        proof {
            assert(s@ + d@ =~= spec_dec_str((n / 10) as nat).push(spec_digit_char((n % 10) as nat)));
        }
        s.append(d);
        s
    }
}

/// The Set-Cookie header value the login endpoint answers with for a
/// session, as the `cookie` crate renders it.
pub open spec fn spec_session_cookie(sid: u64, secure: bool) -> Seq<char> {
    "sessionid="@ + spec_dec_str(sid as nat) + "; HttpOnly; SameSite=Strict"@ + (if secure {
        "; Secure"@
    } else {
        Seq::<char>::empty()
    }) + "; Path=/api; Max-Age=1209600"@
}

/// Relies on `cookie::Cookie`'s Display impl: it renders `name=value` and
/// then the attribute list in the crate's fixed order — HttpOnly, SameSite,
/// Secure (only when set), Path, Max-Age (two weeks, in whole seconds).
#[verifier::external_body]
fn build_session_cookie(value: &str, secure: bool) -> (r: String)
    ensures
        r@ == "sessionid="@ + value@ + "; HttpOnly; SameSite=Strict"@ + (if secure {
            "; Secure"@
        } else {
            Seq::<char>::empty()
        }) + "; Path=/api; Max-Age=1209600"@,
{
    let c = cookie::Cookie::build(("sessionid", value))
        .http_only(true)
        .same_site(cookie::SameSite::Strict)
        .secure(secure)
        .path("/api")
        .max_age(cookie::time::Duration::weeks(2))
        .build();
    c.to_string()
}

/// The Set-Cookie header value binding the client to its fresh session.
pub fn session_cookie_header(session: SessionId, secure: bool) -> (r: String)
    ensures
        r@ == spec_session_cookie(session@, secure),
{
    let v = u64_to_string(session.value());
    build_session_cookie(v.as_str(), secure)
}

} // verus!
