//! Kill requests that the command line leaves for a sidecar.

use crate::json::{bool_member, json_bool_of, json_str_of, str_member};
use crate::model::ids::{uuid_text, RunId};
use crate::text::same_text;
use vstd::prelude::*;

verus! {

/// What a request with these members asks of the run named `run`: whether to kill
/// it by force. `None` for a request that names another run or none: a stale
/// request never kills a replacement run, and a malformed one is never taken for
/// a forced kill.
pub open spec fn kill_order_of(
    run: Seq<char>,
    run_member: Option<Seq<char>>,
    force_member: Option<bool>,
) -> Option<bool> {
    if run_member == Some(run) {
        Some(match force_member {
            Some(force) => force,
            None => false,
        })
    } else {
        None
    }
}

/// What a request with these members asks of the run named `run`.
pub fn kill_order(run: &str, run_member: &Option<String>, force_member: Option<bool>) -> (order:
    Option<bool>)
    ensures
        order == kill_order_of(run@, crate::json::text_of(*run_member), force_member),
{
    match run_member {
        Some(member) => {
            if same_text(member.as_str(), run) {
                Some(match force_member {
                    Some(force) => force,
                    None => false,
                })
            } else {
                None
            }
        },
        None => None,
    }
}

/// What the request in `text` asks of the run: whether to kill it by force.
/// `None` where it is malformed or meant for another run.
pub fn kill_requested(text: &str, run_id: RunId) -> (order: Option<bool>)
    ensures
        order == kill_order_of(
            uuid_text(run_id@.0, run_id@.1),
            json_str_of(text@, "run_id"@),
            json_bool_of(text@, "force"@),
        ),
{
    let run_member = str_member(text, "run_id");
    let force_member: Option<bool> = bool_member(text, "force");
    let run = run_id.to_text();
    kill_order(run.as_str(), &run_member, force_member)
}

/// A request kills the run that it names and no other, and by force only where it says so.
pub proof fn law_kill_requests_name_their_run(
    run: &str,
    run_member: Option<String>,
    force_member: Option<bool>,
    order: Option<bool>,
    text: &str,
    run_id: RunId,
    requested: Option<bool>,
)
    requires
        call_ensures(kill_order, (run, &run_member, force_member), order),
        call_ensures(kill_requested, (text, run_id), requested),
    ensures
        order is Some <==> (run_member matches Some(named) && named@ == run@),
        order matches Some(force) ==> (force <==> force_member == Some(true)),
        requested is Some <==> json_str_of(text@, "run_id"@) == Some(
            uuid_text(run_id@.0, run_id@.1),
        ),
        requested matches Some(force) ==> (force <==> json_bool_of(text@, "force"@) == Some(true)),
{
}

} // verus!
