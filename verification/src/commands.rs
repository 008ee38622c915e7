//! The decisions of the bot's commands; fetching and replying are left to
//! the caller.
use vstd::prelude::*;

use crate::embeds::error::FailedMapErr;
use crate::utils::osu_utils::ParsedUrlResult;

verus! {

/// What the `background` command shows for a beatmap link.
#[derive(Clone, Copy, PartialEq, Eq, Structural)]
pub enum BackgroundTarget {
    /// The cover of the beatmapset of this beatmap.
    Beatmap(u32),
    /// The cover of this beatmapset.
    Beatmapset(u32),
    /// The link names no beatmap.
    Invalid,
}

/// What the `background` command shows: a named beatmap first, else a named
/// beatmapset.
pub fn background_target(parsed: &ParsedUrlResult) -> (r: BackgroundTarget)
    ensures
        r == match parsed.map_id {
            Some(m) => BackgroundTarget::Beatmap(m),
            None => match parsed.mapset_id {
                Some(s) => BackgroundTarget::Beatmapset(s),
                None => BackgroundTarget::Invalid,
            },
        },
{
    if let Some(map_id) = parsed.map_id {
        return BackgroundTarget::Beatmap(map_id);
    }
    match parsed.mapset_id {
        Some(mapset_id) => BackgroundTarget::Beatmapset(mapset_id),
        None => BackgroundTarget::Invalid,
    }
}

/// The beatmap the `score` command shows scores on: the link must name a
/// beatmap; a link that names only a beatmapset asks for a difficulty.
pub fn score_map_id(parsed: &ParsedUrlResult) -> (r: Result<u32, FailedMapErr>)
    ensures
        r == match parsed.map_id {
            Some(m) => Ok(m),
            None => if parsed.mapset_id is Some {
                Err(FailedMapErr::ExpectedDifficulty)
            } else {
                Err(FailedMapErr::FailedUrlParse)
            },
        },
{
    match parsed.map_id {
        Some(map_id) => Ok(map_id),
        None => {
            if parsed.mapset_id.is_some() {
                Err(FailedMapErr::ExpectedDifficulty)
            } else {
                Err(FailedMapErr::FailedUrlParse)
            }
        },
    }
}

/// The position of the recent play number `index` (counted from 1) among
/// the `length` recent plays fetched; `None` when there are fewer.
pub fn recent_score_position(index: usize, length: usize) -> (r: Option<usize>)
    requires
        index >= 1,
    ensures
        r == if length < index {
            None::<usize>
        } else {
            Some((index - 1) as usize)
        },
{
    if length < index {
        None
    } else {
        Some(index - 1)
    }
}

/// The position of the best play number `index` (counted from 1) among the
/// `length` best plays fetched; `None` for number 0 or when there are
/// fewer.
pub fn top_score_position(index: usize, length: usize) -> (r: Option<usize>)
    ensures
        r == if index == 0 || length < index {
            None::<usize>
        } else {
            Some((index - 1) as usize)
        },
{
    if index == 0 || length < index {
        None
    } else {
        Some(index - 1)
    }
}

} // verus!
