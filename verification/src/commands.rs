//! The decisions of the commands that sign in and out.
use vstd::prelude::*;
use vstd::string::*;

use crate::text::{trim, trimmed};

verus! {

/// Why credentials are not taken.
#[derive(Debug, Clone, Copy, PartialEq, Eq, Structural)]
pub enum InputError {
    /// The environment does not have both.
    EnvIncomplete,
    EmptyUsername,
    EmptyPassword,
}

/// The words for credentials that are not taken.
pub open spec fn input_error_text(e: InputError) -> Seq<char> {
    match e {
        InputError::EnvIncomplete => "--from-env requires non-empty VPN_USERNAME and VPN_PASSWORD"@,
        InputError::EmptyUsername => "username must not be empty"@,
        InputError::EmptyPassword => "password must not be empty"@,
    }
}

/// The words for credentials that are not taken.
pub fn input_error(e: InputError) -> (r: &'static str)
    ensures
        r@ == input_error_text(e),
{
    match e {
        InputError::EnvIncomplete => "--from-env requires non-empty VPN_USERNAME and VPN_PASSWORD",
        InputError::EmptyUsername => "username must not be empty",
        InputError::EmptyPassword => "password must not be empty",
    }
}

/// Takes the line that was typed for the user's name, without the white space
/// round it.
pub fn typed_username(input: &str) -> (r: Result<String, InputError>)
    ensures
        match r {
            Ok(name) => name@ == trimmed(input@) && name@.len() > 0,
            Err(e) => trimmed(input@).len() == 0 && e == InputError::EmptyUsername,
        },
{
    let name = trim(input);
    if name.as_str().unicode_len() == 0 {
        Err(InputError::EmptyUsername)
    } else {
        Ok(name)
    }
}

/// Takes the password that was typed, as it is.
pub fn typed_password(input: String) -> (r: Result<String, InputError>)
    ensures
        match r {
            Ok(p) => p@ == input@ && input@.len() > 0,
            Err(e) => input@.len() == 0 && e == InputError::EmptyPassword,
        },
{
    if input.as_str().unicode_len() == 0 {
        Err(InputError::EmptyPassword)
    } else {
        Ok(input)
    }
}

/// What came of removing something.
#[derive(Debug, Clone, Copy, PartialEq, Eq, Structural)]
pub enum Removal {
    Removed,
    /// There was nothing to remove.
    Missing,
    Failed,
}

/// Whether signing out succeeded: nothing that was to be removed is left.
pub fn deauthenticated(credentials: Removal, cookie: Removal, profile: Removal) -> (r: bool)
    ensures
        r == (credentials != Removal::Failed && cookie != Removal::Failed && profile
            != Removal::Failed),
{
    credentials != Removal::Failed && cookie != Removal::Failed && profile != Removal::Failed
}

/// What a forced refresh tells a user without credentials.
pub const NO_CREDENTIALS: &'static str =
    "no complete credential source is available — run `jumphost authenticate`";

/// Whether a forced refresh goes ahead: not without credentials.
pub fn refresh_token(has_credentials: bool) -> (r: Result<(), &'static str>)
    ensures
        match r {
            Ok(()) => has_credentials,
            Err(e) => !has_credentials && e@ == NO_CREDENTIALS@,
        },
{
    if has_credentials {
        Ok(())
    } else {
        Err(NO_CREDENTIALS)
    }
}

// ── Laws ─────────────────────────────────────────────────────────────────

/// A name is taken without the white space round it, and a password as it is;
/// either is turned down exactly if nothing is left.
pub proof fn law_typed_credentials(
    name: &str,
    user: Result<String, InputError>,
    typed: String,
    pass: Result<String, InputError>,
)
    requires
        call_ensures(typed_username, (name,), user),
        call_ensures(typed_password, (typed,), pass),
    ensures
        user is Ok <==> trimmed(name@).len() > 0,
        user matches Ok(u) ==> u@ == trimmed(name@),
        user matches Err(e) ==> e == InputError::EmptyUsername,
        pass is Ok <==> typed@.len() > 0,
        pass matches Ok(p) ==> p@ == typed@,
        pass matches Err(e) ==> e == InputError::EmptyPassword,
{
}

/// Signing out succeeds exactly if no removal failed; what was not there in
/// the first place is no failure.
pub proof fn law_signing_out(credentials: Removal, cookie: Removal, profile: Removal, r: bool)
    requires
        call_ensures(deauthenticated, (credentials, cookie, profile), r),
    ensures
        !r <==> credentials == Removal::Failed || cookie == Removal::Failed || profile
            == Removal::Failed,
{
}

/// A forced refresh needs credentials, and says so without them.
pub proof fn law_forced_refresh_needs_credentials(has: bool, r: Result<(), &'static str>)
    requires
        call_ensures(refresh_token, (has,), r),
    ensures
        r is Ok <==> has,
        r matches Err(e) ==> e@
            == "no complete credential source is available — run `jumphost authenticate`"@,
{
}

/// The words for each way in which credentials are not taken.
pub proof fn law_input_errors(e: InputError, r: &'static str)
    requires
        call_ensures(input_error, (e,), r),
    ensures
        e == InputError::EnvIncomplete ==> r@
            == "--from-env requires non-empty VPN_USERNAME and VPN_PASSWORD"@,
        e == InputError::EmptyUsername ==> r@ == "username must not be empty"@,
        e == InputError::EmptyPassword ==> r@ == "password must not be empty"@,
{
}

} // verus!
