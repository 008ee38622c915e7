//! The texts of the reply that shows a recent play.
use vstd::prelude::*;
use vstd::string::*;

use crate::embeds::{MISSING_TEXT, PP_GAINED_TEXT};
use crate::text::{dec, u64_to_decimal};

verus! {

/// `**__Personal Best #{index}__**`
pub open spec fn personal_best_spec(index: nat) -> Seq<char> {
    "**__Personal Best #"@ + dec(index) + "__**"@
}

/// The description of a play that is the player's best play number
/// `index`.
pub fn personal_best_text(index: usize) -> (r: String)
    ensures
        r@ == personal_best_spec(index as nat),
{
    let mut s = String::from_str("**__Personal Best #");
    s.append(u64_to_decimal(index as u64).as_str());
    s.append("__**");
    s
}

/// The description of a new best play, with the pp it gained (written with
/// two decimals).
pub fn pb_recent_text(pb_index: usize, pp_gained: &str) -> (r: String)
    ensures
        r@ == personal_best_spec(pb_index as nat) + "  • Gained: **"@ + pp_gained@ + "pp** "@
            + PP_GAINED_TEXT@,
{
    let mut s = personal_best_text(pb_index);
    s.append("  • Gained: **");
    s.append(pp_gained);
    s.append("pp** ");
    s.append(PP_GAINED_TEXT);
    s
}

/// The description of a best play that the list of best plays misses, with
/// the pp it gained (written with two decimals).
pub fn missing_pb_recent_text(pb_index: usize, pp_gained: &str) -> (r: String)
    ensures
        r@ == personal_best_spec(pb_index as nat) + " "@ + MISSING_TEXT@ + "  • Gained: **"@
            + pp_gained@ + "pp** "@ + PP_GAINED_TEXT@,
{
    let mut s = personal_best_text(pb_index);
    s.append(" ");
    s.append(MISSING_TEXT);
    s.append("  • Gained: **");
    s.append(pp_gained);
    s.append("pp** ");
    s.append(PP_GAINED_TEXT);
    s
}

/// The description of a play that would be best play number `pb_index` if
/// it were ranked.
pub fn if_ranked_pb_text(pb_index: usize) -> (r: String)
    ensures
        r@ == "__Personal Best #"@ + dec(pb_index as nat) + "__ • **If Ranked**"@,
{
    let mut s = String::from_str("__Personal Best #");
    s.append(u64_to_decimal(pb_index as u64).as_str());
    s.append("__ • **If Ranked**");
    s
}

} // verus!
