//! Credentials in the operating system's keyring: under which names they are
//! kept, what counts as stored, and what a deletion came to.
use vstd::prelude::*;
use vstd::string::*;

use crate::config::{complete, CredentialsView};
use crate::text::{concat2, opt_text};

verus! {

/// The keyring's name for this program.
pub const SERVICE: &'static str = "vpn-jumphost";

/// The entry with the user's name.
pub const KEY_USERNAME: &'static str = "username";

/// The entry with the password.
pub const KEY_PASSWORD: &'static str = "password";

/// An entry counts only if it holds something.
pub open spec fn entry_of(value: Option<Seq<char>>) -> Option<Seq<char>> {
    match value {
        Some(v) if v.len() > 0 => Some(v),
        _ => None,
    }
}

/// The value of an entry, as far as it could be read.
pub fn read_entry(value: Option<String>) -> (r: Option<String>)
    ensures
        opt_text(r) == entry_of(opt_text(value)),
{
    match value {
        Some(v) => if v.as_str().unicode_len() > 0 {
            Some(v)
        } else {
            None
        },
        None => None,
    }
}

/// The stored credentials: both entries or none, and none without a keyring.
pub open spec fn stored(
    store_ok: bool,
    username: Option<Seq<char>>,
    password: Option<Seq<char>>,
) -> Option<(Seq<char>, Seq<char>)> {
    match (entry_of(username), entry_of(password)) {
        (Some(u), Some(p)) if store_ok => Some((u, p)),
        _ => None,
    }
}

/// A pair of texts by its contents.
pub open spec fn pair_view(pair: Option<(String, String)>) -> Option<(Seq<char>, Seq<char>)> {
    match pair {
        Some((a, b)) => Some((a@, b@)),
        None => None,
    }
}

/// The stored credentials; `store_ok` tells whether there is a keyring.
pub fn get_credentials(store_ok: bool, username: Option<String>, password: Option<String>) -> (r:
    Option<(String, String)>)
    ensures
        pair_view(r) == stored(store_ok, opt_text(username), opt_text(password)),
{
    if !store_ok {
        return None;
    }
    match (read_entry(username), read_entry(password)) {
        (Some(u), Some(p)) => Some((u, p)),
        _ => None,
    }
}

/// What came of deleting an entry.
#[derive(Debug, Clone, Copy, PartialEq, Eq, Structural)]
pub enum DeleteOutcome {
    Deleted,
    /// There was no such entry.
    Missing,
    /// The entry could not be deleted.
    Failed,
    /// The entry could not be opened.
    NotOpened,
}

/// Whether a deletion is done: a missing entry is as good as a deleted one.
pub fn delete_succeeded(outcome: DeleteOutcome) -> (r: bool)
    ensures
        r == (outcome == DeleteOutcome::Deleted || outcome == DeleteOutcome::Missing),
{
    match outcome {
        DeleteOutcome::Deleted | DeleteOutcome::Missing => true,
        DeleteOutcome::Failed | DeleteOutcome::NotOpened => false,
    }
}

/// The words for a deletion that failed.
pub fn delete_error(outcome: DeleteOutcome, key: &str, error: &str) -> (r: String)
    ensures
        r@ == (if outcome == DeleteOutcome::NotOpened {
            "failed to open keyring entry '"@
        } else {
            "failed to delete keyring entry '"@
        }) + key@ + "': "@ + error@,
{
    let mut out = if outcome == DeleteOutcome::NotOpened {
        concat2("failed to open keyring entry '", key)
    } else {
        concat2("failed to delete keyring entry '", key)
    };
    out.append("': ");
    out.append(error);
    out
}

// ── Laws ─────────────────────────────────────────────────────────────────

/// What was stored, both entries filled, is what is retrieved, and it is
/// complete.
pub proof fn law_stored_credentials_are_complete(username: Seq<char>, password: Seq<char>)
    requires
        username.len() > 0,
        password.len() > 0,
    ensures
        stored(true, Some(username), Some(password)) == Some((username, password)),
        complete(Some(username), Some(password)) == Some(CredentialsView { username, password }),
{
}

/// The keyring gives credentials exactly where it is there and both entries
/// hold something, and it gives them as they were stored.
pub proof fn law_retrieval(
    store_ok: bool,
    username: Option<String>,
    password: Option<String>,
    r: Option<(String, String)>,
    entry: Option<String>,
)
    requires
        call_ensures(get_credentials, (store_ok, username, password), r),
        call_ensures(read_entry, (username,), entry),
    ensures
        r is Some <==> store_ok && (username matches Some(u) && u@.len() > 0) && (
        password matches Some(p) && p@.len() > 0),
        r matches Some(pair) ==> {
            &&& username matches Some(u) && pair.0@ == u@
            &&& password matches Some(p) && pair.1@ == p@
        },
        entry is Some <==> (username matches Some(u) && u@.len() > 0),
        SERVICE@ == "vpn-jumphost"@ && KEY_USERNAME@ == "username"@ && KEY_PASSWORD@ == "password"@,
        entry matches Some(e) ==> (username matches Some(u) && e@ == u@),
{
}

/// A deletion fails only where an entry that is there could not be deleted or
/// opened; the words tell the two apart.
pub proof fn law_deletion(outcome: DeleteOutcome, r: bool, key: &str, error: &str, words: String)
    requires
        call_ensures(delete_succeeded, (outcome,), r),
        call_ensures(delete_error, (outcome, key, error), words),
    ensures
        !r <==> outcome == DeleteOutcome::Failed || outcome == DeleteOutcome::NotOpened,
        outcome == DeleteOutcome::NotOpened ==> words@ == "failed to open keyring entry '"@ + key@
            + "': "@ + error@,
        outcome == DeleteOutcome::Failed ==> words@ == "failed to delete keyring entry '"@ + key@
            + "': "@ + error@,
{
}

} // verus!
