//! Decisions of the local-preparation sub-flow: splitting the raw
//! command line into an invocation, and the failure-tolerance policy
//! applied after the command ran. Reading the raw inputs, spawning the
//! command and publishing the outcome are the driver's work.

use vstd::prelude::*;

use crate::config::{shell_split, shell_tokens_of};
use crate::text::{seq_views, trim_spec, trim_str};

verus! {

/// Split a complete command line into its leading program word and the
/// remaining argument words; nothing comes of a value that trims to
/// nothing or yields no token at all.
pub fn split_shell_cmd(raw: &str) -> (r: Option<(String, Vec<String>)>)
    ensures
        r is None <==> (trim_spec(raw@).len() == 0 || shell_tokens_of(trim_spec(raw@)).len() == 0),
        r matches Some((cmd, rest)) ==> {
            let toks = shell_tokens_of(trim_spec(raw@));
            &&& toks.len() > 0
            &&& cmd@ == toks[0]
            &&& seq_views(rest@) == toks.drop_first()
        },
{
    let t = trim_str(raw);
    if t.unicode_len() == 0 {
        return None;
    }
    let mut toks = shell_split(t);
    if toks.len() == 0 {
        return None;
    }
    let cmd = toks.remove(0);
    proof {
        assert(seq_views(toks@) =~= shell_tokens_of(trim_spec(raw@)).drop_first());
    }
    Some((cmd, toks))
}

/// The policy decision after the local preparation command ran: its own
/// result is what is reported, and the process is terminated with exit
/// code 1 exactly when the command failed and failure is not allowed.
pub fn pre_local_outcome(succeeded: bool, allow_failure: bool) -> (r: (bool, Option<u8>))
    ensures
        r.0 == succeeded,
        r.1 is Some <==> (!succeeded && !allow_failure),
        r.1 matches Some(code) ==> code == 1,
{
    if !succeeded && !allow_failure {
        (succeeded, Some(1))
    } else {
        (succeeded, None)
    }
}

} // verus!
