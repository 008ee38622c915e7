//! Ranking a play against a player's best plays.
//!
//! Performance values (pp) are `f32`s in the osu! API. Here each one is
//! carried as its *key*: the `u32` whose numeric order is the order of
//! `f32::total_cmp` on the value (for non-negative values, the order of the
//! values themselves). The key of `0.0` is [`PP_KEY_ZERO`].
use vstd::prelude::*;

use crate::utils::osu_utils::MAX_TOP_PLAY_COUNT;
use crate::utils::pp_order::{descending_search, search_descending, sort_descending, sorted_descending};

verus! {

/// The key of a performance value of `0.0`.
pub const PP_KEY_ZERO: u32 = 0x8000_0000;

/// What the ranking reads of a score: its id, its beatmap, its performance
/// key (`None` for a play that gives no pp) and when it was set (in
/// nanoseconds since the Unix epoch).
#[derive(Clone, Copy)]
pub struct ScoreInfo {
    pub id: u64,
    pub map_id: u32,
    pub pp: Option<u32>,
    pub ended_at: i128,
}

/// The performance key of a score, `0.0` when it gives none.
pub open spec fn pp_or_zero(s: ScoreInfo) -> u32 {
    match s.pp {
        Some(k) => k,
        None => PP_KEY_ZERO,
    }
}

/// The performance keys of a list of scores.
pub open spec fn pp_keys(scores: Seq<ScoreInfo>) -> Seq<u32> {
    scores.map_values(|s: ScoreInfo| pp_or_zero(s))
}

/// Where a play stands against a player's best plays.
pub enum IsPbResult {
    /// The play is among the best plays, at this 1-based position.
    InPB(usize),
    /// The play is ranked and good enough for this position, but the list
    /// of best plays does not hold it.
    MissingPB(usize),
    /// The play gives no pp, but would take this position if it did.
    IfRanked(usize),
    /// The play is no personal best.
    NotPB,
}

/// The last position at which a score with this id stands.
pub open spec fn id_position(top: Seq<ScoreInfo>, id: u64) -> Option<int>
    decreases top.len(),
{
    if top.len() == 0 {
        None
    } else if top.last().id == id {
        Some(top.len() - 1)
    } else {
        id_position(top.drop_last(), id)
    }
}

/// The performance key of the last best play on this beatmap.
pub open spec fn map_pp(top: Seq<ScoreInfo>, map_id: u32) -> Option<u32>
    decreases top.len(),
{
    if top.len() == 0 {
        None
    } else if top.last().map_id == map_id {
        Some(pp_or_zero(top.last()))
    } else {
        map_pp(top.drop_last(), map_id)
    }
}

/// Where a play that is not among the best plays would stand, given its
/// performance key `pp` and whether it is ranked.
pub open spec fn pb_placement_spec(top: Seq<ScoreInfo>, map_id: u32, ranked: bool, pp: u32) -> IsPbResult {
    if map_pp(top, map_id) matches Some(p) && p >= pp {
        IsPbResult::NotPB
    } else {
        match descending_search(pp_keys(top), pp) {
            Err(pos) => if ranked && pos < MAX_TOP_PLAY_COUNT {
                IsPbResult::MissingPB((pos + 1) as usize)
            } else if pos < MAX_TOP_PLAY_COUNT {
                IsPbResult::IfRanked((pos + 1) as usize)
            } else {
                IsPbResult::NotPB
            },
            Ok(_) => IsPbResult::NotPB,
        }
    }
}

/// The performance key a play is placed by: its own, or `unranked_pp` when
/// it gives no pp.
pub open spec fn play_key(score: ScoreInfo, unranked_pp: u32) -> u32 {
    match score.pp {
        Some(k) => k,
        None => unranked_pp,
    }
}

/// Where `score` stands against the best plays `top`; `unranked_pp` is the
/// performance key computed for the play when it gives no pp itself.
pub open spec fn is_in_pb_spec(top: Seq<ScoreInfo>, score: ScoreInfo, unranked_pp: u32) -> IsPbResult {
    match id_position(top, score.id) {
        Some(i) => IsPbResult::InPB((i + 1) as usize),
        None => pb_placement_spec(top, score.map_id, score.pp is Some, play_key(score, unranked_pp)),
    }
}

/// In a list sorted from the highest key down, position `i` is where `pp`
/// goes: every key before is higher, every key from it on is lower.
pub open spec fn is_insertion_point(keys: Seq<u32>, pp: u32, i: int) -> bool {
    &&& 0 <= i <= keys.len()
    &&& forall|j: int| 0 <= j < i ==> keys[j] > pp
    &&& forall|j: int| i <= j < keys.len() ==> keys[j] < pp
}

/// The 1-based position at which a score with `id` stands among `top`.
pub fn pb_index_of(top: &Vec<ScoreInfo>, id: u64) -> (r: Option<usize>)
    ensures
        match id_position(top@, id) {
            Some(i) => r == Some((i + 1) as usize),
            None => r is None,
        },
{
    let mut found: Option<usize> = None;
    let mut i: usize = 0;
    while i < top.len()
        invariant
            i <= top.len(),
            match id_position(top@.take(i as int), id) {
                Some(k) => found == Some((k + 1) as usize),
                None => found is None,
            },
        decreases top.len() - i,
    {
        proof {
            assert(top@.take(i + 1).drop_last() =~= top@.take(i as int));
        }
        if top[i].id == id {
            found = Some(i + 1);
        }
        i = i + 1;
    }
    proof {
        assert(top@.take(top.len() as int) =~= top@);
    }
    found
}

/// The performance key of the last best play on `map_id`.
fn map_pp_of(top: &Vec<ScoreInfo>, map_id: u32) -> (r: Option<u32>)
    ensures
        r == map_pp(top@, map_id),
{
    let mut found: Option<u32> = None;
    let mut i: usize = 0;
    while i < top.len()
        invariant
            i <= top.len(),
            found == map_pp(top@.take(i as int), map_id),
        decreases top.len() - i,
    {
        proof {
            assert(top@.take(i + 1).drop_last() =~= top@.take(i as int));
        }
        if top[i].map_id == map_id {
            found = Some(
                match top[i].pp {
                    Some(k) => k,
                    None => PP_KEY_ZERO,
                },
            );
        }
        i = i + 1;
    }
    proof {
        assert(top@.take(top.len() as int) =~= top@);
    }
    found
}

/// The performance keys of `scores`, a play without pp counting as `0.0`.
pub fn pp_key_list(scores: &Vec<ScoreInfo>) -> (r: Vec<u32>)
    ensures
        r@ == pp_keys(scores@),
{
    let mut keys: Vec<u32> = Vec::new();
    let mut i: usize = 0;
    while i < scores.len()
        invariant
            i <= scores.len(),
            keys@ == pp_keys(scores@.take(i as int)),
        decreases scores.len() - i,
    {
        proof {
            assert(pp_keys(scores@.take(i + 1)) =~= pp_keys(scores@.take(i as int)).push(
                pp_or_zero(scores@[i as int]),
            ));
        }
        keys.push(
            match scores[i].pp {
                Some(k) => k,
                None => PP_KEY_ZERO,
            },
        );
        i = i + 1;
    }
    proof {
        assert(scores@.take(scores.len() as int) =~= scores@);
    }
    keys
}

/// Where a play that is not among the best plays `top` would stand.
///
/// It is no personal best when a best play on the same beatmap has at least
/// its pp. Otherwise its position is where its pp goes in the list, which is
/// sorted from the highest pp down: a ranked play there is a best play the
/// list misses, an unranked one would be a best play if it were ranked; a
/// pp equal to one in the list, or a position past the list's limit, is no
/// personal best.
pub fn pb_placement(top: &Vec<ScoreInfo>, map_id: u32, ranked: bool, pp: u32) -> (r: IsPbResult)
    ensures
        r == pb_placement_spec(top@, map_id, ranked, pp),
        sorted_descending(pp_keys(top@)) && !(map_pp(top@, map_id) matches Some(p) && p >= pp) ==> {
            match r {
                IsPbResult::MissingPB(n) => ranked && is_insertion_point(pp_keys(top@), pp, n - 1),
                IsPbResult::IfRanked(n) => !ranked && is_insertion_point(pp_keys(top@), pp, n - 1),
                IsPbResult::NotPB => pp_keys(top@).contains(pp) || (exists|i: int|
                    is_insertion_point(pp_keys(top@), pp, i) && i >= MAX_TOP_PLAY_COUNT),
                IsPbResult::InPB(_) => false,
            }
        },
{
    if let Some(p) = map_pp_of(top, map_id) {
        if p >= pp {
            return IsPbResult::NotPB;
        }
    }
    let keys = pp_key_list(top);
    let search = search_descending(keys.as_slice(), pp);
    proof {
        if sorted_descending(pp_keys(top@)) {
            match search {
                Err(pos) => {
                    assert(is_insertion_point(pp_keys(top@), pp, pos as int));
                },
                Ok(i) => {
                    assert(pp_keys(top@)[i as int] == pp);
                    assert(pp_keys(top@).contains(pp));
                },
            }
        }
    }
    placement_from_search(search, ranked)
}

/// The placement that a binary search result gives: a key equal to the
/// play's means no personal best; otherwise the position found (counted
/// from 1), when it is within the list's limit, is a missing best play for
/// a ranked play and an if-ranked best play for an unranked one.
pub fn placement_from_search(search: Result<usize, usize>, ranked: bool) -> (r: IsPbResult)
    ensures
        r == match search {
            Err(pos) => if ranked && pos < MAX_TOP_PLAY_COUNT {
                IsPbResult::MissingPB((pos + 1) as usize)
            } else if pos < MAX_TOP_PLAY_COUNT {
                IsPbResult::IfRanked((pos + 1) as usize)
            } else {
                IsPbResult::NotPB
            },
            Ok(_) => IsPbResult::NotPB,
        },
{
    match search {
        Err(pos) => {
            if ranked && pos < MAX_TOP_PLAY_COUNT {
                IsPbResult::MissingPB(pos + 1)
            } else if pos < MAX_TOP_PLAY_COUNT {
                IsPbResult::IfRanked(pos + 1)
            } else {
                IsPbResult::NotPB
            }
        },
        Ok(_) => IsPbResult::NotPB,
    }
}

/// Where `score` stands against the player's best plays `top` (sorted from
/// the highest pp down): among them when its id is there (at its 1-based
/// position), else as [`pb_placement`] says. `unranked_pp` is the
/// performance key computed for the play, read only when the play gives no
/// pp itself.
pub fn is_in_pb(top: &Vec<ScoreInfo>, score: &ScoreInfo, unranked_pp: u32) -> (r: IsPbResult)
    ensures
        r == is_in_pb_spec(top@, *score, unranked_pp),
        id_position(top@, score.id) is None && sorted_descending(pp_keys(top@)) && !(map_pp(
            top@,
            score.map_id,
        ) matches Some(p) && p >= play_key(*score, unranked_pp)) ==> {
            match r {
                IsPbResult::MissingPB(n) => score.pp is Some && is_insertion_point(
                    pp_keys(top@),
                    play_key(*score, unranked_pp),
                    n - 1,
                ),
                IsPbResult::IfRanked(n) => score.pp is None && is_insertion_point(
                    pp_keys(top@),
                    play_key(*score, unranked_pp),
                    n - 1,
                ),
                IsPbResult::NotPB => pp_keys(top@).contains(play_key(*score, unranked_pp)) || (exists|i: int|
                    is_insertion_point(pp_keys(top@), play_key(*score, unranked_pp), i) && i
                        >= MAX_TOP_PLAY_COUNT),
                IsPbResult::InPB(_) => false,
            }
        },
{
    if let Some(i) = pb_index_of(top, score.id) {
        return IsPbResult::InPB(i);
    }
    let pp = match score.pp {
        Some(k) => k,
        None => unranked_pp,
    };
    pb_placement(top, score.map_id, score.pp.is_some(), pp)
}

/// Why no pp gain can be reckoned for a play.
pub enum PpGainError {
    /// The play gives no pp.
    NotRanked,
    /// A best play on the same beatmap has at least the play's pp.
    BetterScoreFound,
}

/// What the pp gain of a play is reckoned from: the performance keys of the
/// best plays without the play (and without the plays it beats on its
/// beatmap), the play's key, and the key of the player's previous score on
/// the beatmap.
pub struct PpGainInputs {
    pub top_pps: Vec<u32>,
    pub score_pp: u32,
    pub previous_pp: u32,
}

/// The play removes best play `t` from the list: it is that play, or a play
/// with more pp on the same beatmap.
pub open spec fn replaces(score: ScoreInfo, score_pp: u32, t: ScoreInfo) -> bool {
    score.id == t.id || (score.map_id == t.map_id && score_pp > pp_or_zero(t))
}

/// Reading the best plays from position `i` on: the keys kept and whether a
/// removed play calls for an extra copy of the lowest key; `None` when a
/// best play on the same beatmap has at least the play's pp.
pub open spec fn gain_scan(
    top: Seq<ScoreInfo>,
    score: ScoreInfo,
    score_pp: u32,
    i: int,
    kept: Seq<u32>,
    extra: bool,
) -> Option<(Seq<u32>, bool)>
    decreases top.len() - i,
{
    if i < 0 || i >= top.len() {
        Some((kept, extra))
    } else if replaces(score, score_pp, top[i]) {
        gain_scan(top, score, score_pp, i + 1, kept, top.len() >= MAX_TOP_PLAY_COUNT)
    } else if score.map_id == top[i].map_id {
        None
    } else {
        gain_scan(top, score, score_pp, i + 1, kept.push(pp_or_zero(top[i])), extra)
    }
}

/// The play's earlier scores on its beatmap: set before it, other than it.
pub open spec fn earlier_score(score: ScoreInfo, s: ScoreInfo) -> bool {
    score.ended_at > s.ended_at && score.id != s.id
}

/// The highest key of the earlier scores among `map_scores`, `0.0` when
/// there is none.
pub open spec fn previous_pp_spec(map_scores: Seq<ScoreInfo>, score: ScoreInfo) -> u32
    decreases map_scores.len(),
{
    if map_scores.len() == 0 {
        PP_KEY_ZERO
    } else {
        let before = previous_pp_spec(map_scores.drop_last(), score);
        let s = map_scores.last();
        if !earlier_score(score, s) {
            before
        } else if !has_earlier(map_scores.drop_last(), score) || pp_or_zero(s) > before {
            pp_or_zero(s)
        } else {
            before
        }
    }
}

/// Some score of `map_scores` is earlier than the play.
pub open spec fn has_earlier(map_scores: Seq<ScoreInfo>, score: ScoreInfo) -> bool {
    exists|j: int| 0 <= j < map_scores.len() && earlier_score(score, #[trigger] map_scores[j])
}

/// Whether `top_pps` is what the pp gain is reckoned from when the scan of
/// the best plays kept `kept`: with an extra copy of the lowest key, the kept
/// keys sorted from the highest down followed by their last (or `0.0`);
/// without, the kept keys as they were.
pub open spec fn gain_list(kept: Seq<u32>, extra: bool, top_pps: Seq<u32>) -> bool {
    if extra {
        &&& top_pps.len() == kept.len() + 1
        &&& sorted_descending(top_pps.drop_last())
        &&& top_pps.drop_last().to_multiset() == kept.to_multiset()
        &&& top_pps.last() == (if kept.len() > 0 {
            top_pps[kept.len() - 1]
        } else {
            PP_KEY_ZERO
        })
    } else {
        top_pps == kept
    }
}

/// The inputs of the pp gain of `score`, given the player's best plays and
/// the player's scores on the beatmap.
///
/// The play must give pp. Each best play that the play replaces (the play
/// itself, or one with less pp on its beatmap) is dropped, and when the
/// list was full the lowest remaining key is counted twice in its place; a
/// best play on the same beatmap with at least the play's pp means no gain.
/// The previous pp is the highest of the player's earlier scores on the
/// beatmap.
pub fn pp_gain_inputs(top: &Vec<ScoreInfo>, score: &ScoreInfo, map_scores: &Vec<ScoreInfo>) -> (r:
    Result<PpGainInputs, PpGainError>)
    ensures
        score.pp is None <==> r matches Err(PpGainError::NotRanked),
        score.pp matches Some(k) ==> match gain_scan(top@, *score, k, 0, seq![], false) {
            None => r matches Err(PpGainError::BetterScoreFound),
            Some(scan) => r matches Ok(inputs) && inputs.score_pp == k && gain_list(
                scan.0,
                scan.1,
                inputs.top_pps@,
            ) && inputs.previous_pp == previous_pp_spec(map_scores@, *score),
        },
{
    let score_pp = match score.pp {
        Some(k) => k,
        None => {
            return Err(PpGainError::NotRanked);
        },
    };
    let mut kept: Vec<u32> = Vec::new();
    let mut extra = false;
    let mut i: usize = 0;
    while i < top.len()
        invariant
            i <= top.len(),
            score.pp == Some(score_pp),
            gain_scan(top@, *score, score_pp, 0, seq![], false) == gain_scan(
                top@,
                *score,
                score_pp,
                i as int,
                kept@,
                extra,
            ),
        decreases top.len() - i,
    {
        let t = top[i];
        let t_pp = match t.pp {
            Some(k) => k,
            None => PP_KEY_ZERO,
        };
        if score.id == t.id || (score.map_id == t.map_id && score_pp > t_pp) {
            extra = top.len() >= MAX_TOP_PLAY_COUNT;
        } else if score.map_id == t.map_id {
            return Err(PpGainError::BetterScoreFound);
        } else {
            kept.push(t_pp);
        }
        i = i + 1;
    }
    let ghost kept_view = kept@;
    let mut top_pps = kept;
    proof {
        assert(gain_scan(top@, *score, score_pp, i as int, kept_view, extra) == Some((kept_view, extra)));
    }
    if extra {
        sort_descending(&mut top_pps);
        let ghost sorted = top_pps@;
        let lowest = if top_pps.len() > 0 {
            top_pps[top_pps.len() - 1]
        } else {
            PP_KEY_ZERO
        };
        proof {
            assert(top_pps@.len() == kept_view.len()) by {
                top_pps@.to_multiset_ensures();
                kept_view.to_multiset_ensures();
            }
        }
        top_pps.push(lowest);
        proof {
            assert(top_pps@.drop_last() =~= sorted);
            assert(gain_list(kept_view, extra, top_pps@));
        }
    }
    let previous_pp = previous_pp_of(map_scores, score);
    Ok(PpGainInputs { top_pps, score_pp, previous_pp })
}

/// The highest key of the play's earlier scores among `map_scores`.
fn previous_pp_of(map_scores: &Vec<ScoreInfo>, score: &ScoreInfo) -> (r: u32)
    ensures
        r == previous_pp_spec(map_scores@, *score),
{
    let mut best = PP_KEY_ZERO;
    let mut any = false;
    let mut i: usize = 0;
    while i < map_scores.len()
        invariant
            i <= map_scores.len(),
            best == previous_pp_spec(map_scores@.take(i as int), *score),
            any == has_earlier(map_scores@.take(i as int), *score),
        decreases map_scores.len() - i,
    {
        let ghost pre = map_scores@.take(i as int);
        let s = map_scores[i];
        proof {
            assert(map_scores@.take(i + 1).drop_last() =~= pre);
            assert(map_scores@.take(i + 1).last() == s);
        }
        if score.ended_at > s.ended_at && score.id != s.id {
            let s_pp = match s.pp {
                Some(k) => k,
                None => PP_KEY_ZERO,
            };
            if !any || s_pp > best {
                best = s_pp;
            }
            any = true;
            proof {
                assert(map_scores@.take(i + 1)[i as int] == s);
            }
        } else {
            proof {
                if has_earlier(map_scores@.take(i + 1), *score) {
                    let j = choose|j: int|
                        0 <= j < i + 1 && earlier_score(*score, #[trigger] map_scores@.take(i + 1)[j]);
                    assert(j < i);
                    assert(pre[j] == map_scores@.take(i + 1)[j]);
                }
            }
        }
        proof {
            if any && !has_earlier(pre, *score) {
            }
            if has_earlier(pre, *score) {
                let j = choose|j: int| 0 <= j < pre.len() && earlier_score(*score, #[trigger] pre[j]);
                assert(map_scores@.take(i + 1)[j] == pre[j]);
            }
        }
        i = i + 1;
    }
    proof {
        assert(map_scores@.take(map_scores.len() as int) =~= map_scores@);
    }
    best
}

/// The position of the best performance among `pps`: a play with pp whose
/// key no other play exceeds, and the last such play when several tie.
pub open spec fn is_best_index(pps: Seq<Option<u32>>, i: int) -> bool {
    &&& 0 <= i < pps.len()
    &&& pps[i] is Some
    &&& forall|j: int| 0 <= j < pps.len() && pps[j] is Some ==> pps[j]->0 <= pps[i]->0
    &&& forall|j: int| i < j < pps.len() && pps[j] is Some ==> pps[j]->0 < pps[i]->0
}

/// The position of the play with the highest pp (the last of those that
/// tie), or 0 when no play gives pp.
pub fn highest_pp_index(pps: &Vec<Option<u32>>) -> (r: usize)
    ensures
        (exists|j: int| 0 <= j < pps@.len() && pps@[j] is Some) ==> is_best_index(pps@, r as int),
        !(exists|j: int| 0 <= j < pps@.len() && pps@[j] is Some) ==> r == 0,
{
    let mut best: usize = 0;
    let mut found = false;
    let mut i: usize = 0;
    while i < pps.len()
        invariant
            i <= pps.len(),
            found == (exists|j: int| 0 <= j < i && pps@[j] is Some),
            found ==> is_best_index(pps@.take(i as int), best as int),
            !found ==> best == 0,
        decreases pps.len() - i,
    {
        if let Some(k) = pps[i] {
            let better = if found {
                match pps[best] {
                    Some(b) => k >= b,
                    None => true,
                }
            } else {
                true
            };
            if better {
                best = i;
            }
            found = true;
        }
        proof {
            let t = pps@.take(i + 1);
            assert forall|j: int| 0 <= j < i implies t[j] == pps@.take(i as int)[j] by {}
        }
        i = i + 1;
    }
    proof {
        assert(pps@.take(pps.len() as int) =~= pps@);
    }
    best
}

/// Position `i` is the play to take: the best performance, or the first
/// play when no play gives pp.
pub open spec fn picked_index(pps: Seq<Option<u32>>, i: int) -> bool {
    &&& (exists|j: int| 0 <= j < pps.len() && pps[j] is Some) ==> is_best_index(pps, i)
    &&& !(exists|j: int| 0 <= j < pps.len() && pps[j] is Some) ==> i == 0
}

/// Takes the play with the highest pp out of `scores` (of which `pps` are
/// the performance keys, in order): the play, and the others in their
/// order; `None` when there is no play. When no play gives pp, the first
/// play is taken.
pub fn highest_pp_score<T>(scores: Vec<T>, pps: &Vec<Option<u32>>) -> (r: Option<(T, Vec<T>)>)
    requires
        pps.len() == scores.len(),
    ensures
        scores.len() == 0 <==> r is None,
        r matches Some(picked) ==> exists|i: int|
            {
                &&& #[trigger] picked_index(pps@, i)
                &&& 0 <= i < scores.len()
                &&& picked.0 == scores@[i]
                &&& picked.1@ == scores@.remove(i)
            },
{
    if scores.len() == 0 {
        return None;
    }
    let best = highest_pp_index(pps);
    let ghost given = scores@;
    let mut rest = scores;
    let picked = rest.remove(best);
    proof {
        let i = best as int;
        assert(0 <= i < given.len());
        assert(picked == given[i]);
        assert(rest@ == given.remove(i));
        assert(picked_index(pps@, i));
    }
    Some((picked, rest))
}

proof fn lemma_id_position_last(top: Seq<ScoreInfo>, id: u64, i: int)
    requires
        0 <= i < top.len(),
        top[i].id == id,
        forall|j: int| i < j < top.len() ==> top[j].id != id,
    ensures
        id_position(top, id) == Some(i),
    decreases top.len(),
{
    if top.last().id != id {
        assert(top.drop_last()[i] == top[i]);
        lemma_id_position_last(top.drop_last(), id, i);
    }
}

/// The performance key that blocks a play on a beatmap is that of a best
/// play on that beatmap, the last one in the list: there is none exactly
/// when no best play is on the beatmap.
pub proof fn lemma_map_pp_is_last_play_on_map(top: Seq<ScoreInfo>, map_id: u32)
    ensures
        map_pp(top, map_id) is None <==> forall|i: int| 0 <= i < top.len() ==> (#[trigger] top[i]).map_id != map_id,
        map_pp(top, map_id) matches Some(k) ==> exists|i: int|
            0 <= i < top.len() && (#[trigger] top[i]).map_id == map_id && k == pp_or_zero(top[i]) && forall|j: int|
                i < j < top.len() ==> (#[trigger] top[j]).map_id != map_id,
    decreases top.len(),
{
    if top.len() > 0 {
        let rest = top.drop_last();
        lemma_map_pp_is_last_play_on_map(rest, map_id);
        let n = top.len() - 1;
        if top.last().map_id == map_id {
            assert(top[n].map_id == map_id);
        } else {
            assert forall|i: int| 0 <= i < rest.len() implies rest[i] == top[i] by {}
            if map_pp(rest, map_id) is None {
                assert forall|i: int| 0 <= i < top.len() implies (#[trigger] top[i]).map_id != map_id by {
                    if i < n {
                        assert(rest[i] == top[i]);
                    }
                }
            } else {
                let k = map_pp(rest, map_id)->0;
                let i = choose|i: int|
                    0 <= i < rest.len() && (#[trigger] rest[i]).map_id == map_id && k == pp_or_zero(rest[i])
                        && forall|j: int| i < j < rest.len() ==> (#[trigger] rest[j]).map_id != map_id;
                assert(top[i] == rest[i]);
                assert forall|j: int| i < j < top.len() implies (#[trigger] top[j]).map_id != map_id by {
                    if j < n {
                        assert(rest[j] == top[j]);
                    }
                }
            }
        }
    }
}

/// Best plays on the play's beatmap with less pp than the play do not block
/// it: the play is then placed by its pp (see `is_in_pb`).
pub proof fn lemma_weaker_map_plays_do_not_block(top: Seq<ScoreInfo>, map_id: u32, pp: u32)
    requires
        forall|i: int| 0 <= i < top.len() && (#[trigger] top[i]).map_id == map_id ==> pp_or_zero(top[i]) < pp,
    ensures
        !(map_pp(top, map_id) matches Some(p) && p >= pp),
{
    lemma_map_pp_is_last_play_on_map(top, map_id);
}

/// The keys of the best plays from position `i` on that are on another
/// beatmap than the play and are not the play itself, in order.
pub open spec fn other_map_keys(top: Seq<ScoreInfo>, score: ScoreInfo, i: int) -> Seq<u32>
    decreases top.len() - i,
{
    if i < 0 || i >= top.len() {
        seq![]
    } else if top[i].map_id != score.map_id && top[i].id != score.id {
        seq![pp_or_zero(top[i])] + other_map_keys(top, score, i + 1)
    } else {
        other_map_keys(top, score, i + 1)
    }
}

/// The play or a best play on its beatmap is at position `i` or later.
pub open spec fn drops_from(top: Seq<ScoreInfo>, score: ScoreInfo, i: int) -> bool {
    exists|j: int| i <= j < top.len() && ((#[trigger] top[j]).id == score.id || top[j].map_id == score.map_id)
}

proof fn lemma_gain_scan_weaker_from(
    top: Seq<ScoreInfo>,
    score: ScoreInfo,
    k: u32,
    i: int,
    kept: Seq<u32>,
    extra: bool,
)
    requires
        0 <= i <= top.len(),
        forall|j: int|
            0 <= j < top.len() && (#[trigger] top[j]).map_id == score.map_id && top[j].id != score.id
                ==> pp_or_zero(top[j]) < k,
    ensures
        gain_scan(top, score, k, i, kept, extra) == Some(
            (
                kept + other_map_keys(top, score, i),
                if drops_from(top, score, i) {
                    top.len() >= MAX_TOP_PLAY_COUNT
                } else {
                    extra
                },
            ),
        ),
    decreases top.len() - i,
{
    if i == top.len() {
        assert(kept + seq![] =~= kept);
    } else {
        let t = top[i];
        if replaces(score, k, t) {
            lemma_gain_scan_weaker_from(top, score, k, i + 1, kept, top.len() >= MAX_TOP_PLAY_COUNT);
            assert(drops_from(top, score, i));
            if drops_from(top, score, i + 1) {
            }
        } else {
            assert(t.map_id != score.map_id && t.id != score.id);
            lemma_gain_scan_weaker_from(top, score, k, i + 1, kept.push(pp_or_zero(t)), extra);
            assert(kept.push(pp_or_zero(t)) + other_map_keys(top, score, i + 1) =~= kept + other_map_keys(
                top,
                score,
                i,
            ));
            assert(drops_from(top, score, i) == drops_from(top, score, i + 1)) by {
                if drops_from(top, score, i) {
                    let j = choose|j: int|
                        i <= j < top.len() && ((#[trigger] top[j]).id == score.id || top[j].map_id
                            == score.map_id);
                    assert(j != i);
                }
            }
        }
    }
}

/// A ranked play whose other best plays on its beatmap all have less pp
/// gains pp: the pp gain is reckoned (`pp_gain_inputs` returns `Ok`) from
/// exactly the keys of the best plays on other beatmaps, in their order,
/// and the lowest key is counted twice only when the list is full and the
/// play or a play on its beatmap was dropped from it.
pub proof fn lemma_gain_keeps_other_maps(top: Seq<ScoreInfo>, score: ScoreInfo, k: u32)
    requires
        forall|j: int|
            0 <= j < top.len() && (#[trigger] top[j]).map_id == score.map_id && top[j].id != score.id
                ==> pp_or_zero(top[j]) < k,
    ensures
        gain_scan(top, score, k, 0, seq![], false) == Some(
            (other_map_keys(top, score, 0), top.len() >= MAX_TOP_PLAY_COUNT && drops_from(top, score, 0)),
        ),
{
    lemma_gain_scan_weaker_from(top, score, k, 0, seq![], false);
    assert(seq![] + other_map_keys(top, score, 0) =~= other_map_keys(top, score, 0));
}

proof fn lemma_gain_scan_blocked_from(
    top: Seq<ScoreInfo>,
    score: ScoreInfo,
    k: u32,
    i: int,
    kept: Seq<u32>,
    extra: bool,
    j: int,
)
    requires
        0 <= i <= j < top.len(),
        top[j].map_id == score.map_id,
        top[j].id != score.id,
        pp_or_zero(top[j]) >= k,
    ensures
        gain_scan(top, score, k, i, kept, extra) is None,
    decreases top.len() - i,
{
    if i < j {
        if replaces(score, k, top[i]) {
            lemma_gain_scan_blocked_from(top, score, k, i + 1, kept, top.len() >= MAX_TOP_PLAY_COUNT, j);
        } else if score.map_id != top[i].map_id {
            lemma_gain_scan_blocked_from(top, score, k, i + 1, kept.push(pp_or_zero(top[i])), extra, j);
        }
    }
}

/// A best play on the play's beatmap, other than the play, with at least
/// its pp means no gain (`pp_gain_inputs` returns `BetterScoreFound`);
/// together with `lemma_gain_keeps_other_maps`, that is the only way no gain
/// is reckoned for a ranked play.
pub proof fn lemma_better_map_play_blocks_gain(top: Seq<ScoreInfo>, score: ScoreInfo, k: u32, j: int)
    requires
        0 <= j < top.len(),
        top[j].map_id == score.map_id,
        top[j].id != score.id,
        pp_or_zero(top[j]) >= k,
    ensures
        gain_scan(top, score, k, 0, seq![], false) is None,
{
    lemma_gain_scan_blocked_from(top, score, k, 0, seq![], false, j);
}

/// A play that is among the best plays is reported at its position (the
/// last position holding its id, counted from 1), whatever its pp.
pub proof fn lemma_listed_play_is_pb(top: Seq<ScoreInfo>, score: ScoreInfo, unranked_pp: u32, i: int)
    requires
        0 <= i < top.len(),
        top[i].id == score.id,
        forall|j: int| i < j < top.len() ==> top[j].id != score.id,
    ensures
        is_in_pb_spec(top, score, unranked_pp) == IsPbResult::InPB((i + 1) as usize),
{
    lemma_id_position_last(top, score.id, i);
}

proof fn lemma_gain_scan_blocked(
    top: Seq<ScoreInfo>,
    score: ScoreInfo,
    k: u32,
    i: int,
    j: int,
    kept: Seq<u32>,
    extra: bool,
)
    requires
        0 <= j <= i < top.len(),
        top[i].map_id == score.map_id,
        top[i].id != score.id,
        pp_or_zero(top[i]) >= k,
    ensures
        gain_scan(top, score, k, j, kept, extra) is None,
    decreases i - j,
{
    if j < i {
        let t = top[j];
        if replaces(score, k, t) {
            lemma_gain_scan_blocked(top, score, k, i, j + 1, kept, top.len() >= MAX_TOP_PLAY_COUNT);
        } else if score.map_id == t.map_id {
        } else {
            lemma_gain_scan_blocked(top, score, k, i, j + 1, kept.push(pp_or_zero(t)), extra);
        }
    }
}

/// No pp is gained from a play when another best play on the same beatmap
/// has at least its pp.
pub proof fn lemma_no_gain_below_better_play(top: Seq<ScoreInfo>, score: ScoreInfo, k: u32, i: int)
    requires
        0 <= i < top.len(),
        top[i].map_id == score.map_id,
        top[i].id != score.id,
        pp_or_zero(top[i]) >= k,
    ensures
        gain_scan(top, score, k, 0, seq![], false) is None,
{
    lemma_gain_scan_blocked(top, score, k, i, 0, seq![], false);
}

} // verus!
