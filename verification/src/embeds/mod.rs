//! The texts of the bot's replies.
pub mod common;
pub mod error;
pub mod recent;
pub mod score;

use vstd::prelude::*;

verus! {

/// The color of a reply that reports a failure.
pub const FAIL_EMBED_COLOR: i32 = 0xFF0000;

/// The color of an ordinary reply.
pub const DEFAULT_EMBED_COLOR: i32 = 0x699BC7;

/// The link that explains the pp gained from a play.
pub const PP_GAINED_TEXT: &'static str = "**[(?)](https://discord.com/channels/1297750821219467264/1297838959854096454/# \"the amount of raw profile PP gained from this play accounting for previous scores on the map, this does not include bonus PP and the value is only accurate if this is the most recent top play\")**";

/// The link that explains a best play missing from the list of best plays.
pub const MISSING_TEXT: &'static str = "**[(?)](https://discord.com/channels/1297750821219467264/1297838959854096454/# \"the top200 did not include this score likely because the api wasn't done processing but presumably the score is in there\")**";

} // verus!
