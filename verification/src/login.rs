use vstd::prelude::*;
use crate::error::Error;

verus! {

/// The credentials a caller posts to log in.
#[derive(Debug)]
pub struct LoginPayload {
    pub username: String,
    pub pwd: String,
}

/// The token value the session cookie carries after a successful login:
/// user 1, with placeholder expiration and signature fields (neither is
/// validated anywhere).
pub open spec fn spec_login_token() -> Seq<char> {
    "user-1.exp.sign"@
}

/// Whether a login attempt carries the single recognized demo credential
/// pair.
pub open spec fn spec_credentials_ok(payload: LoginPayload) -> bool {
    payload.username@ == "admin"@ && payload.pwd@ == "123456"@
}

/// Check a login attempt: exactly the demo credential pair is recognized and
/// yields the auth-token value to set as the session cookie; anything else
/// fails with `LoginFailed`.
pub fn login(payload: &LoginPayload) -> (r: Result<String, Error>)
    ensures
        spec_credentials_ok(*payload) ==> (r matches Ok(t) && t@ == spec_login_token()),
        !spec_credentials_ok(*payload) ==> r == Err::<String, Error>(Error::LoginFailed),
{
    let username_ok = payload.username == "admin".to_owned();
    let pwd_ok = payload.pwd == "123456".to_owned();
    if username_ok && pwd_ok {
        Ok("user-1.exp.sign".to_owned())
    } else {
        Err(Error::LoginFailed)
    }
}

} // verus!
