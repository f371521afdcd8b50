//! What the commands `osu`, `recent` and `recentpass` ask for.

use crate::invocation::Args;
use crate::utils::osu::{named, parse_user_id, Recent, RecentArgs, UserId};
use vstd::prelude::*;

verus! {

/// The score that a message asks for: the player that its text names, and
/// the number behind the command's name as the place of the score.
pub open spec fn asked(msg: Seq<char>, num: Option<u32>, include_fails: bool) -> Option<Recent> {
    match named(msg) {
        Some(user) => Some(Recent { user, idx: num, include_fails }),
        None => None,
    }
}

fn ask(args: &Args, include_fails: bool) -> (request: Option<RecentArgs>)
    ensures
        match request {
            Some(request) => asked(args.msg@, args.num, include_fails) == Some(request@),
            None => asked(args.msg@, args.num, include_fails) is None,
        },
{
    match parse_user_id(args.msg) {
        Some(user) => Some(RecentArgs { user, idx: args.num, include_fails }),
        None => None,
    }
}

/// The player that `osu` is to look up, or none if the message names none:
/// the command then asks for a name and has done its work.
pub fn osu(args: &Args) -> (user: Option<UserId>)
    ensures
        match user {
            Some(user) => named(args.msg@) == Some(user@),
            None => named(args.msg@) is None,
        },
{
    parse_user_id(args.msg)
}

/// The score that `recent` is to look up, failed plays counted, or none if
/// the message names no player.
pub fn recent(args: &Args) -> (request: Option<RecentArgs>)
    ensures
        match request {
            Some(request) => asked(args.msg@, args.num, true) == Some(request@),
            None => asked(args.msg@, args.num, true) is None,
        },
{
    ask(args, true)
}

/// The score that `recentpass` is to look up, failed plays left out, or none
/// if the message names no player.
pub fn recentpass(args: &Args) -> (request: Option<RecentArgs>)
    ensures
        match request {
            Some(request) => asked(args.msg@, args.num, false) == Some(request@),
            None => asked(args.msg@, args.num, false) is None,
        },
{
    ask(args, false)
}

} // verus!
