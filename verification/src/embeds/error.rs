//! The texts of the replies that report a failure.
use vstd::prelude::*;
use vstd::string::*;

use crate::text::{dec, u64_to_decimal};

verus! {

/// Why a beatmap could not be shown.
#[derive(Clone, Copy, PartialEq, Eq, Structural)]
pub enum FailedMapErr {
    FailedUrlParse,
    MapNotFound,
    SetNotFound,
    ExpectedDifficulty,
}

/// The text of each beatmap failure.
pub open spec fn failed_map_spec(fail_type: FailedMapErr) -> Seq<char> {
    match fail_type {
        FailedMapErr::FailedUrlParse => "Invalid specfied Beatmap URL or last Beatmap URL in channel"@,
        FailedMapErr::MapNotFound => "Specfied Beatmap or last beatmap in channel not found"@,
        FailedMapErr::SetNotFound => "Specfied Beatmapset or last Beatmapset in channel not found"@,
        FailedMapErr::ExpectedDifficulty => "Expected a map difficulty, found mapset\nfrom specfied beatmap or last beatmap in channel"@,
    }
}

/// The text of a beatmap failure.
pub fn failed_map_text(fail_type: FailedMapErr) -> (r: String)
    ensures
        r@ == failed_map_spec(fail_type),
{
    let text = match fail_type {
        FailedMapErr::FailedUrlParse => "Invalid specfied Beatmap URL or last Beatmap URL in channel",
        FailedMapErr::MapNotFound => "Specfied Beatmap or last beatmap in channel not found",
        FailedMapErr::SetNotFound => "Specfied Beatmapset or last Beatmapset in channel not found",
        FailedMapErr::ExpectedDifficulty => "Expected a map difficulty, found mapset\nfrom specfied beatmap or last beatmap in channel",
    };
    String::from_str(text)
}

/// ``User `{name}` was not found``
pub open spec fn player_not_found_spec(name: Seq<char>) -> Seq<char> {
    "User `"@ + name + "` was not found"@
}

/// The text of a reply to a search for a player that does not exist.
pub fn player_not_found_text(name: &str) -> (r: String)
    ensures
        r@ == player_not_found_spec(name@),
{
    let mut s = String::from_str("User `");
    s.append(name);
    s.append("` was not found");
    s
}

/// The text of a reply to a user who linked no osu! account.
pub const ACCOUNT_NOT_LINKED_TEXT: &'static str = "No Osu! account linked with discord, run /link";

/// The text of a reply when a beatmap has no scores.
pub const NO_SCORES_FOUND_TEXT: &'static str = "No scores found on map";

/// The text of a reply when something unexpected failed.
pub const SOMETHING_WENT_WRONG_TEXT: &'static str = "Something went wrong";

/// The text of a reply when a player has fewer recent plays (or passes,
/// with `only_passes`) than asked for.
pub open spec fn not_enough_scores_spec(name: Seq<char>, length: nat, only_passes: bool) -> Seq<char> {
    let who = "`"@ + name + "`"@;
    if only_passes {
        if length == 0 {
            who + " has no recent passes"@
        } else if length == 1 {
            who + " only has "@ + dec(length) + " recent pass"@
        } else {
            who + " only has "@ + dec(length) + " recent passes"@
        }
    } else {
        if length == 0 {
            who + " has no recent scores"@
        } else if length == 1 {
            who + " only has "@ + dec(length) + " recent score"@
        } else {
            who + " only has "@ + dec(length) + " recent scores"@
        }
    }
}

/// The text of a reply when a player has fewer recent plays (or passes)
/// than asked for: none, one, or how many.
pub fn not_enough_scores_text(name: &str, length: usize, only_passes: bool) -> (r: String)
    ensures
        r@ == not_enough_scores_spec(name@, length as nat, only_passes),
{
    let mut s = String::from_str("`");
    s.append(name);
    s.append("`");
    if length == 0 {
        if only_passes {
            s.append(" has no recent passes");
        } else {
            s.append(" has no recent scores");
        }
    } else {
        s.append(" only has ");
        s.append(u64_to_decimal(length as u64).as_str());
        if only_passes {
            if length == 1 {
                s.append(" recent pass");
            } else {
                s.append(" recent passes");
            }
        } else {
            if length == 1 {
                s.append(" recent score");
            } else {
                s.append(" recent scores");
            }
        }
    }
    s
}

} // verus!
