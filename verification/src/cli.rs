//! The rules of the headless command line: what a preview and a delete
//! demand before they touch a session, and the errors (with their exit
//! codes) they answer otherwise.

use vstd::prelude::*;

use crate::model::CleanupItem;
use crate::session::{resolve_ids, token_accepts, token_view, verify_token, ScanSession};

verus! {

/// A failure the command line reports as JSON, with its process exit code.
pub struct CliError {
    pub message: String,
    pub code: String,
    pub exit: u8,
}

impl CliError {
    pub fn new(code: &str, message: String, exit: u8) -> (r: Self)
        ensures
            r.code@ == code@,
            r.message == message,
            r.exit == exit,
    {
        CliError { message, code: String::from_str(code), exit }
    }
}

/// Is `e` the error with this code, message and exit code?
pub open spec fn is_error(e: CliError, code: Seq<char>, message: Seq<char>, exit: u8) -> bool {
    e.code@ == code && e.message@ == message && e.exit == exit
}

/// A preview needs at least one id.
pub fn check_preview_request(ids: &Vec<String>) -> (r: Result<(), CliError>)
    ensures
        ids@.len() > 0 <==> r is Ok,
        r matches Err(e) ==> is_error(
            e,
            "missing_ids"@,
            "pass --ids with at least one item id from the last scan"@,
            2,
        ),
{
    if ids.len() == 0 {
        return Err(
            CliError::new(
                "missing_ids",
                String::from_str("pass --ids with at least one item id from the last scan"),
                2,
            ),
        );
    }
    Ok(())
}

/// A delete needs the user's explicit yes, then at least one id.
pub fn check_delete_request(yes: bool, ids: &Vec<String>) -> (r: Result<(), CliError>)
    ensures
        (yes && ids@.len() > 0) <==> r is Ok,
        !yes ==> (r matches Err(e) && is_error(
            e,
            "confirmation_required"@,
            "refusing to delete without --yes (ask the user first, then pass --yes)"@,
            3,
        )),
        yes && ids@.len() == 0 ==> (r matches Err(e) && is_error(
            e,
            "missing_ids"@,
            "pass --ids with the same ids used in preview"@,
            2,
        )),
{
    if !yes {
        return Err(
            CliError::new(
                "confirmation_required",
                String::from_str("refusing to delete without --yes (ask the user first, then pass --yes)"),
                3,
            ),
        );
    }
    if ids.len() == 0 {
        return Err(CliError::new("missing_ids", String::from_str("pass --ids with the same ids used in preview"), 2));
    }
    Ok(())
}

/// Authorize deleting `ids` with `token` against a loaded session: the token
/// must be the one the session's last preview issued, for the same ids in
/// any order. On success, each id is paired with the finding the session
/// holds for it (`None` for an id it does not know), in request order.
pub fn authorize_delete(session: &ScanSession, ids: &Vec<String>, token: &str) -> (r: Result<
    Vec<(String, Option<CleanupItem>)>,
    CliError,
>)
    ensures
        r is Ok <==> token_accepts(
            token_view(session.pending_token),
            session.pending_ids.deep_view(),
            ids.deep_view(),
            token@,
        ),
        r matches Err(e) ==> is_error(
            e,
            "invalid_token"@,
            "confirm token is missing, expired, or does not match these ids \u{2014} run `safai preview` again"@,
            3,
        ),
        r matches Ok(v) ==> v@.len() == ids@.len() && forall|i: int| 0 <= i < ids@.len() ==> {
            &&& (#[trigger] v@[i]).0 == ids@[i]
            &&& v@[i].1 == if session.items@.contains_key(ids@[i]@) {
                Some(session.items@[ids@[i]@])
            } else {
                None::<CleanupItem>
            }
        },
{
    if !verify_token(session, ids, token) {
        return Err(
            CliError::new(
                "invalid_token",
                String::from_str(
                    "confirm token is missing, expired, or does not match these ids \u{2014} run `safai preview` again",
                ),
                3,
            ),
        );
    }
    let found = resolve_ids(&session.items, ids);
    let mut out: Vec<(String, Option<CleanupItem>)> = Vec::new();
    let mut i: usize = 0;
    while i < ids.len()
        invariant
            i <= ids@.len(),
            found@.len() == ids@.len(),
            forall|j: int| 0 <= j < ids@.len() ==> #[trigger] found@[j] == if session.items@.contains_key(ids@[j]@) {
                Some(session.items@[ids@[j]@])
            } else {
                None::<CleanupItem>
            },
            out@.len() == i,
            forall|j: int| 0 <= j < i ==> {
                &&& (#[trigger] out@[j]).0 == ids@[j]
                &&& out@[j].1 == found@[j]
            },
        decreases ids@.len() - i,
    {
        let item = match &found[i] {
            Some(it) => Some(it.clone()),
            None => None,
        };
        out.push((ids[i].clone(), item));
        i = i + 1;
    }
    Ok(out)
}

/// A preview's token authorizes exactly the previewed ids, in any order, and
/// only until it is spent: once the session forgets its pending token no
/// token is accepted.
pub proof fn law_confirm_token_is_one_shot(
    token: Seq<char>,
    previewed: Seq<Seq<char>>,
    requested: Seq<Seq<char>>,
    offered: Seq<char>,
)
    ensures
        token_accepts(Some(token), previewed, requested, offered) <==> (offered == token
            && crate::session::same_ids(previewed, requested)),
        !token_accepts(None, previewed, requested, offered),
        token_accepts(Some(token), previewed, previewed, token),
{
}

} // verus!
