//! API authentication decisions: who may log in and with which role, the
//! claims of a token and how long it lives, and reading the bearer token
//! of a request. Signing and checking tokens is the JWT layer's.
use vstd::prelude::*;
use vstd::utf8::encode_utf8;
use crate::text::{has_prefix, slice_chars, starts_with, str_chars, string_from_chars};

verus! {

/// How long a token is valid, in hours.
pub const JWT_EXPIRY_HOURS: i64 = 24;

/// The claims a token carries.
pub struct Claims {
    pub sub: String,
    pub role: String,
    pub provider: String,
    /// Expiry, seconds since the epoch.
    pub exp: usize,
    /// Issue time, seconds since the epoch.
    pub iat: usize,
}

/// A login.
pub struct TokenRequest {
    pub username: String,
    pub password: String,
}

/// A successful login.
pub struct TokenResponse {
    pub token: String,
    pub username: String,
    pub role: String,
    /// The expiry time as RFC 3339 text.
    pub expires: String,
}

/// The body of a refused request.
pub struct ErrResp {
    error: String,
}

impl ErrResp {
    /// The error text.
    pub closed spec fn spec_message(&self) -> Seq<char> {
        self.error@
    }

    /// A refusal with the given text.
    pub fn new(msg: &str) -> (r: ErrResp)
        ensures
            r.spec_message() == msg@,
    {
        ErrResp { error: msg.to_owned() }
    }

    /// The error text.
    pub fn message(&self) -> (r: String)
        ensures
            r@ == self.spec_message(),
    {
        self.error.clone()
    }
}

/// The role a user gets: `root` and `admin` are administrators, everyone
/// else an operator.
pub open spec fn spec_role(username: Seq<char>) -> Seq<char> {
    if username == "root"@ || username == "admin"@ {
        "admin"@
    } else {
        "operator"@
    }
}

/// The password of the built-in `admin` account.
pub open spec fn default_admin_password() -> Seq<char> {
    "admin123"@
}

/// Whether a login is refused: a password shorter than four bytes, or the
/// `admin` account with a password other than its own.
pub open spec fn login_refused(username: Seq<char>, password: Seq<char>) -> bool {
    encode_utf8(password).len() < 4 || (username == "admin"@ && password
        != default_admin_password())
}

/// Decides a login: a refused one (see `login_refused`) gets
/// `Invalid credentials`; otherwise the user's role is returned.
pub fn login_role(req: &TokenRequest) -> (r: Result<String, ErrResp>)
    requires
        encode_utf8(req.password@).len() <= usize::MAX,
    ensures
        login_refused(req.username@, req.password@) ==> (r matches Err(e) && e.spec_message()
            == "Invalid credentials"@),
        !login_refused(req.username@, req.password@) ==> (r matches Ok(role) && role@
            == spec_role(req.username@)),
{
    proof {
        reveal_strlit("admin123");
    }
    if req.password.as_str().len() < 4 {
        return Err(ErrResp::new("Invalid credentials"));
    }
    let is_admin = crate::text::str_eq(req.username.as_str(), "admin");
    if is_admin && !crate::text::str_eq(req.password.as_str(), "admin123") {
        return Err(ErrResp::new("Invalid credentials"));
    }
    if crate::text::str_eq(req.username.as_str(), "root") || is_admin {
        Ok("admin".to_owned())
    } else {
        Ok("operator".to_owned())
    }
}

/// The claims of a token issued at `now` (seconds since the epoch): it
/// expires 24 hours later; times are stored as `usize` as they come
/// (wrapping for times before the epoch).
pub fn claims_for(username: &str, role: &str, provider: &str, now: i64) -> (r: Claims)
    requires
        now + 86400 <= i64::MAX,
    ensures
        r.sub@ == username@,
        r.role@ == role@,
        r.provider@ == provider@,
        r.iat == now as usize,
        r.exp == (now + 86400) as usize,
{
    let exp = now + JWT_EXPIRY_HOURS * 3600;
    Claims {
        sub: username.to_owned(),
        role: role.to_owned(),
        provider: provider.to_owned(),
        iat: now as usize,
        exp: exp as usize,
    }
}

/// The response to a successful login.
pub fn token_response(token: String, username: &str, role: &str, expires: String) -> (r: TokenResponse)
    ensures
        r.token == token,
        r.username@ == username@,
        r.role@ == role@,
        r.expires == expires,
{
    TokenResponse { token, username: username.to_owned(), role: role.to_owned(), expires }
}

/// The refusal sent when signing a token failed.
pub fn token_generation_failed() -> (r: ErrResp)
    ensures
        r.spec_message() == "Token generation failed"@,
{
    ErrResp::new("Token generation failed")
}

/// The refusal of a request without a valid token.
pub fn missing_token() -> (r: ErrResp)
    ensures
        r.spec_message() == "Missing or invalid token"@,
{
    ErrResp::new("Missing or invalid token")
}

/// The token of an `Authorization` header: the text after `Bearer `.
pub fn bearer_token(header: Option<&str>) -> (r: Option<String>)
    ensures
        match header {
            Some(h) => if has_prefix(h@, "Bearer "@) {
                r matches Some(t) && t@ == h@.subrange(7, h@.len() as int)
            } else {
                r is None
            },
            None => r is None,
        },
{
    match header {
        Some(h) => {
            let c = str_chars(h);
            let p = str_chars("Bearer ");
            proof {
                reveal_strlit("Bearer ");
            }
            if starts_with(c.as_slice(), p.as_slice()) {
                let t = slice_chars(c.as_slice(), 7, c.len());
                Some(string_from_chars(t.as_slice()))
            } else {
                None
            }
        },
        None => None,
    }
}

} // verus!
