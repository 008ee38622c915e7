//! Texts shared by the replies that show a player or a score.
use vstd::prelude::*;
use vstd::string::*;

use crate::text::{comma_dec, dec, signed_comma_dec, u64_to_comma_decimal, u64_to_decimal};
use crate::utils::osu_utils::{
    format_hits, format_slider_misses, grade_emoji, grade_emoji_text, hits_text, relative_timestamp,
    relative_timestamp_text, song_length_text, formated_song_length, tail_miss_text, tick_miss_text,
    Grade, BPM_EMOJI, MISS_EMOJI, TAIL_MISS_EMOJI,
};

verus! {

/// The icon of the replies' footers.
pub const CATBOX_FOOTER_ICON: &'static str = "https://files.catbox.moe/7kcm1a";

/// The start of the address of a player's profile.
pub const OSU_PROFILE_URL_BASE: &'static str = "https://osu.ppy.sh/users/";

/// `{player_name}: {player_pp}pp (#{global_rank} {country_code}{country_rank})`
pub open spec fn author_name_spec(
    player_name: Seq<char>,
    player_pp: Seq<char>,
    global_rank: Seq<char>,
    country_code: Seq<char>,
    country_rank: Seq<char>,
) -> Seq<char> {
    player_name + ": "@ + player_pp + "pp (#"@ + global_rank + " "@ + country_code + country_rank + ")"@
}

/// The line that names a player in a reply: name, pp and ranks.
pub fn author_name_text(
    player_name: &str,
    player_pp: &str,
    global_rank: &str,
    country_code: &str,
    country_rank: &str,
) -> (r: String)
    ensures
        r@ == author_name_spec(player_name@, player_pp@, global_rank@, country_code@, country_rank@),
{
    let mut s = String::from_str(player_name);
    s.append(": ");
    s.append(player_pp);
    s.append("pp (#");
    s.append(global_rank);
    s.append(" ");
    s.append(country_code);
    s.append(country_rank);
    s.append(")");
    s
}

/// The address of a player's osu! profile.
pub fn profile_url(player_name: &str) -> (r: String)
    ensures
        r@ == OSU_PROFILE_URL_BASE@ + player_name@ + "/osu"@,
{
    let mut s = String::from_str(OSU_PROFILE_URL_BASE);
    s.append(player_name);
    s.append("/osu");
    s
}

/// The title of a score reply: `{artist} - {title} [{version}] [{stars}★]`.
pub open spec fn score_title_spec(artist: Seq<char>, title: Seq<char>, version: Seq<char>, stars: Seq<char>) -> Seq<char> {
    artist + " - "@ + title + " ["@ + version + "] ["@ + stars + "★]"@
}

/// The title of a score reply: the song, the difficulty and its stars.
pub fn score_title_text(artist: &str, title: &str, version: &str, stars: &str) -> (r: String)
    ensures
        r@ == score_title_spec(artist@, title@, version@, stars@),
{
    let mut s = String::from_str(artist);
    s.append(" - ");
    s.append(title);
    s.append(" [");
    s.append(version);
    s.append("] [");
    s.append(stars);
    s.append("★]");
    s
}

/// The footer of a score reply: `Mapset by {creator} | {status}`.
pub fn mapset_footer_text(creator: &str, status: &str) -> (r: String)
    ensures
        r@ == "Mapset by "@ + creator@ + " | "@ + status@,
{
    let mut s = String::from_str("Mapset by ");
    s.append(creator);
    s.append(" | ");
    s.append(status);
    s
}

/// `[{name}](https://osu.ppy.sh/teams/{id})`, a link to a team.
pub fn team_link_text(name: &str, id: u32) -> (r: String)
    ensures
        r@ == "["@ + name@ + "](https://osu.ppy.sh/teams/"@ + crate::text::dec(id as nat) + ")"@,
{
    let mut s = String::from_str("[");
    s.append(name);
    s.append("](https://osu.ppy.sh/teams/");
    s.append(crate::text::u64_to_decimal(id as u64).as_str());
    s.append(")");
    s
}

/// ` •  ` and the missed slider ticks and ends of a play, or nothing when
/// it missed none.
pub open spec fn slider_stats_spec(tick_miss: nat, tail_miss: nat) -> Seq<char> {
    if tick_miss == 0 && tail_miss == 0 {
        seq![]
    } else {
        " •  "@ + tick_miss_text(tick_miss) + tail_miss_text(tail_miss)
    }
}

/// The missed slider ticks and ends of a play as shown after its hits.
pub fn slider_stats_text(tick_miss: u32, tail_miss: u32) -> (r: String)
    ensures
        r@ == slider_stats_spec(tick_miss as nat, tail_miss as nat),
{
    match format_slider_misses(tick_miss, tail_miss) {
        Some(s) => {
            let mut t = String::from_str(" •  ");
            t.append(s.as_str());
            t
        },
        None => String::new(),
    }
}

/// The line of what a play would have been with a full combo:
/// `**If FC** (__{pp} PP__)  • {hits} • **{acc}%**`, then the missed slider
/// ends when there are some, then a line break.
pub open spec fn if_fc_spec(
    nc_pp: Seq<char>,
    n300: nat,
    n100: nat,
    n50: nat,
    miss: nat,
    nc_acc: Seq<char>,
    tail_miss: nat,
) -> Seq<char> {
    "**If FC** (__"@ + nc_pp + " PP__)  • "@ + hits_text(n300, n100, n50, miss) + " • **"@ + nc_acc + "%**"@
        + (if tail_miss > 0 {
        " • "@ + dec(tail_miss) + TAIL_MISS_EMOJI@
    } else {
        seq![]
    }) + "\n"@
}

/// The line of what a play would have been with a full combo; `nc_pp` and
/// `nc_acc` are written by the caller.
pub fn if_fc_text(
    nc_pp: &str,
    n300: u32,
    n100: u32,
    n50: u32,
    miss: u32,
    nc_acc: &str,
    tail_miss: u32,
) -> (r: String)
    ensures
        r@ == if_fc_spec(nc_pp@, n300 as nat, n100 as nat, n50 as nat, miss as nat, nc_acc@, tail_miss as nat),
{
    let mut s = String::from_str("**If FC** (__");
    s.append(nc_pp);
    s.append(" PP__)  • ");
    s.append(format_hits(n300, n100, n50, miss).as_str());
    s.append(" • **");
    s.append(nc_acc);
    s.append("%**");
    if tail_miss > 0 {
        s.append(" • ");
        s.append(u64_to_decimal(tail_miss as u64).as_str());
        s.append(TAIL_MISS_EMOJI);
    }
    s.append("\n");
    s
}

/// The name of a score's field: `{grade}{failed}\t{acc}%\t{mods}\t{score}\t{time}`
/// (the score with thousands separators, the time relative to now).
pub open spec fn score_field_name_spec(
    grade: Grade,
    failed_percent: Seq<char>,
    accuracy: Seq<char>,
    mods: Seq<char>,
    score: nat,
    ended_at: int,
) -> Seq<char> {
    grade_emoji_text(grade) + failed_percent + "\t"@ + accuracy + "%\t"@ + mods + "\t"@ + comma_dec(score)
        + "\t"@ + relative_timestamp_text(ended_at)
}

/// The name of a score's field: grade, completion of a failed play,
/// accuracy, mods, score and when it was set. `failed_percent` and
/// `accuracy` are written by the caller.
pub fn score_field_name_text(
    grade: Grade,
    failed_percent: &str,
    accuracy: &str,
    mods: &str,
    score: u32,
    ended_at: i64,
) -> (r: String)
    ensures
        r@ == score_field_name_spec(grade, failed_percent@, accuracy@, mods@, score as nat, ended_at as int),
{
    let mut s = grade_emoji(grade);
    s.append(failed_percent);
    s.append("\t");
    s.append(accuracy);
    s.append("%\t");
    s.append(mods);
    s.append("\t");
    s.append(u64_to_comma_decimal(score as u64).as_str());
    s.append("\t");
    s.append(relative_timestamp(ended_at).as_str());
    s
}

/// The difficulty settings of a beatmap as written by the caller.
pub struct MapSettingsText {
    pub cs: String,
    pub ar: String,
    pub od: String,
    pub hp: String,
    pub bpm: String,
}

/// The value of a score's field: pp out of the map's maximum, hits, combo
/// out of the map's, missed slider parts, the full-combo line, the map's
/// settings, its length and its tempo.
pub open spec fn score_field_value_spec(
    pp: Seq<char>,
    max_pp: Seq<char>,
    hits: Seq<char>,
    score_combo: nat,
    map_combo: nat,
    slider_stats: Seq<char>,
    if_fc: Seq<char>,
    cs: Seq<char>,
    ar: Seq<char>,
    od: Seq<char>,
    hp: Seq<char>,
    seconds: nat,
    bpm: Seq<char>,
) -> Seq<char> {
    "**"@ + pp + "**/"@ + max_pp + " PP • "@ + hits + " • **"@ + dec(score_combo) + "**/"@ + dec(map_combo)
        + "x "@ + slider_stats + "\n"@ + if_fc + "`CS: "@ + cs + " AR: "@ + ar + " OD: "@ + od
        + " HP: "@ + hp + "` • `"@ + song_length_text(seconds) + "` • "@ + BPM_EMOJI@ + " **"@ + bpm
        + "**"@
}

/// The value of a score's field; the decimal numbers are written by the
/// caller.
pub fn score_field_value_text(
    pp: &str,
    max_pp: &str,
    hits: &str,
    score_combo: u32,
    map_combo: u32,
    slider_stats: &str,
    if_fc: &str,
    settings: &MapSettingsText,
    seconds: u32,
) -> (r: String)
    ensures
        r@ == score_field_value_spec(
            pp@,
            max_pp@,
            hits@,
            score_combo as nat,
            map_combo as nat,
            slider_stats@,
            if_fc@,
            settings.cs@,
            settings.ar@,
            settings.od@,
            settings.hp@,
            seconds as nat,
            settings.bpm@,
        ),
{
    let mut s = String::from_str("**");
    s.append(pp);
    s.append("**/");
    s.append(max_pp);
    s.append(" PP • ");
    s.append(hits);
    s.append(" • **");
    s.append(u64_to_decimal(score_combo as u64).as_str());
    s.append("**/");
    s.append(u64_to_decimal(map_combo as u64).as_str());
    s.append("x ");
    s.append(slider_stats);
    s.append("\n");
    s.append(if_fc);
    s.append("`CS: ");
    s.append(settings.cs.as_str());
    s.append(" AR: ");
    s.append(settings.ar.as_str());
    s.append(" OD: ");
    s.append(settings.od.as_str());
    s.append(" HP: ");
    s.append(settings.hp.as_str());
    s.append("` • `");
    s.append(formated_song_length(seconds).as_str());
    s.append("` • ");
    s.append(BPM_EMOJI);
    s.append(" **");
    s.append(settings.bpm.as_str());
    s.append("**");
    s
}

/// The line of one of a player's other scores on a beatmap:
/// `\n{grade} **+{mods}** [{stars}★] {pp}pp ({acc}%) {combo}x • {misses}{ticks} {time}`,
/// where the misses read `FC` for a full combo.
pub open spec fn other_score_line_spec(
    grade: Grade,
    mods: Seq<char>,
    stars: Seq<char>,
    pp: Seq<char>,
    accuracy: Seq<char>,
    combo: nat,
    full_combo: bool,
    miss: nat,
    tick_miss: nat,
    ended_at: int,
) -> Seq<char> {
    "\n"@ + grade_emoji_text(grade) + " **+"@ + mods + "** ["@ + stars + "★] "@ + pp + "pp ("@ + accuracy
        + "%) "@ + dec(combo) + "x • "@ + (if full_combo {
        "FC"@
    } else {
        dec(miss) + MISS_EMOJI@
    }) + tick_miss_text(tick_miss) + " "@ + relative_timestamp_text(ended_at)
}

/// The line of one of a player's other scores on a beatmap; the decimal
/// numbers are written by the caller.
pub fn other_score_line_text(
    grade: Grade,
    mods: &str,
    stars: &str,
    pp: &str,
    accuracy: &str,
    combo: u32,
    full_combo: bool,
    miss: u32,
    tick_miss: u32,
    ended_at: i64,
) -> (r: String)
    ensures
        r@ == other_score_line_spec(
            grade,
            mods@,
            stars@,
            pp@,
            accuracy@,
            combo as nat,
            full_combo,
            miss as nat,
            tick_miss as nat,
            ended_at as int,
        ),
{
    let mut s = String::from_str("\n");
    s.append(grade_emoji(grade).as_str());
    s.append(" **+");
    s.append(mods);
    s.append("** [");
    s.append(stars);
    s.append("★] ");
    s.append(pp);
    s.append("pp (");
    s.append(accuracy);
    s.append("%) ");
    s.append(u64_to_decimal(combo as u64).as_str());
    s.append("x • ");
    if full_combo {
        s.append("FC");
    } else {
        s.append(u64_to_decimal(miss as u64).as_str());
        s.append(MISS_EMOJI);
    }
    s.append(crate::utils::osu_utils::format_slider_tick_misses_from_stats(tick_miss).as_str());
    s.append(" ");
    s.append(relative_timestamp(ended_at).as_str());
    s
}

/// The description of a player's profile: accuracy, level, playtime,
/// playcount, medals (`-` when unknown), team, and the peak rank with when
/// it was reached, when known.
pub open spec fn profile_description_spec(
    accuracy: Seq<char>,
    level: nat,
    playtime: Seq<char>,
    playcount: nat,
    medals: Option<nat>,
    team: Seq<char>,
    peak: Option<(nat, int)>,
) -> Seq<char> {
    "Accuracy: `"@ + accuracy + "%` • Level: `"@ + comma_dec(level) + "`\nPlaytime: `"@ + playtime
        + "` • Playcount: `"@ + comma_dec(playcount) + "`\nMedals: `"@ + (match medals {
        Some(n) => dec(n),
        None => "-"@,
    }) + "` • Team: "@ + team + (match peak {
        Some((rank, at)) => "\nPeak rank: `"@ + comma_dec(rank) + "` • "@ + relative_timestamp_text(at),
        None => seq![],
    })
}

/// The description of a player's profile; the accuracy, the playtime and
/// the team link are written by the caller.
pub fn profile_description_text(
    accuracy: &str,
    level: u32,
    playtime: &str,
    playcount: u32,
    medals: Option<usize>,
    team: &str,
    peak: Option<(u32, i64)>,
) -> (r: String)
    ensures
        r@ == profile_description_spec(
            accuracy@,
            level as nat,
            playtime@,
            playcount as nat,
            match medals {
                Some(n) => Some(n as nat),
                None => None,
            },
            team@,
            match peak {
                Some((rank, at)) => Some((rank as nat, at as int)),
                None => None,
            },
        ),
{
    let mut s = String::from_str("Accuracy: `");
    s.append(accuracy);
    s.append("%` • Level: `");
    s.append(u64_to_comma_decimal(level as u64).as_str());
    s.append("`\nPlaytime: `");
    s.append(playtime);
    s.append("` • Playcount: `");
    s.append(u64_to_comma_decimal(playcount as u64).as_str());
    s.append("`\nMedals: `");
    match medals {
        Some(n) => s.append(u64_to_decimal(n as u64).as_str()),
        None => s.append("-"),
    }
    s.append("` • Team: ");
    s.append(team);
    match peak {
        Some((rank, at)) => {
            s.append("\nPeak rank: `");
            s.append(u64_to_comma_decimal(rank as u64).as_str());
            s.append("` • ");
            s.append(relative_timestamp(at).as_str());
        },
        None => {},
    }
    s
}

} // verus!
