//! Reading beatmap links and formatting osu! specific texts.
use vstd::prelude::*;
use vstd::string::*;

use crate::text::{dec, signed_dec, i64_to_decimal, pad2, pad2_decimal, u64_to_decimal};
use crate::strings::{
    contains_spec, lemma_parse_pad2_reads_back, lemma_parse_u32_reads_decimal, lemma_trim_idempotent, parse_u32, parse_u32_spec, str_contains, str_eq, to_lowercase_string, trim_spec,
    trim_str, unicode_lowercase,
};
use crate::utils::patterns::{regex_find, regex_find_all, regex_first_match, regex_match_texts};
use crate::utils::url_parts::{parse_url, url_parse_result, views, UrlParts, UrlView};

verus! {

/// What a beatmap link names: the beatmapset and the beatmap (difficulty).
pub struct ParsedUrlResult {
    pub mapset_id: Option<u32>,
    pub map_id: Option<u32>,
}

/// The regular expression of a run of digits, `\d+`.
pub open spec fn digit_pattern() -> Seq<char> {
    seq!['\\', 'd', '+']
}

/// The runs of digits in `s`, in order.
pub open spec fn digit_runs_spec(s: Seq<char>) -> Seq<Seq<char>> {
    match regex_match_texts(digit_pattern(), s) {
        Some(runs) => runs,
        None => seq![],
    }
}

/// The number written by the last of the runs of digits `runs`: `None`
/// when there is no run or the last does not fit in a `u32`.
pub open spec fn last_run_number(runs: Seq<Seq<char>>) -> Option<u32> {
    if runs.len() == 0 {
        None
    } else {
        parse_u32_spec(runs.last())
    }
}

/// The runs of digits of an optional text (none when there is no text).
pub open spec fn opt_digit_runs(o: Option<Seq<char>>) -> Seq<Seq<char>> {
    match o {
        Some(t) => digit_runs_spec(t),
        None => seq![],
    }
}

/// The numbers written by the runs of `runs` that fit in a `u32`, in order.
pub open spec fn run_values(runs: Seq<Seq<char>>) -> Seq<u32>
    decreases runs.len(),
{
    if runs.len() == 0 {
        seq![]
    } else {
        let before = run_values(runs.drop_last());
        match parse_u32_spec(runs.last()) {
            Some(v) => before.push(v),
            None => before,
        }
    }
}

/// The segments of `segs` that are not empty, in order.
pub open spec fn non_empty_only(segs: Seq<Seq<char>>) -> Seq<Seq<char>>
    decreases segs.len(),
{
    if segs.len() == 0 {
        seq![]
    } else {
        let before = non_empty_only(segs.drop_last());
        if segs.last().len() > 0 {
            before.push(segs.last())
        } else {
            before
        }
    }
}

/// A path segment that announces a beatmap id after it.
pub open spec fn is_map_keyword(seg: Seq<char>) -> bool {
    seg == "beatmaps"@ || seg == "beatmap"@ || seg == "b"@
}

/// What segment `i` of a path teaches about the (mapset, map) ids found so
/// far: `beatmapsets/<n>` sets a missing mapset id, `beatmaps/<n>`,
/// `beatmap/<n>` and `b/<n>` set a missing map id.
pub open spec fn segment_step(segs: Seq<Seq<char>>, i: int, ids: (Option<u32>, Option<u32>)) -> (
    Option<u32>,
    Option<u32>,
) {
    if segs[i] == "beatmapsets"@ && i + 1 < segs.len() {
        if ids.0 is None {
            (parse_u32_spec(segs[i + 1]), ids.1)
        } else {
            ids
        }
    } else if is_map_keyword(segs[i]) && i + 1 < segs.len() && ids.1 is None {
        (ids.0, parse_u32_spec(segs[i + 1]))
    } else {
        ids
    }
}

/// The ids found by reading the segments from position `i` to the end.
pub open spec fn segment_scan(segs: Seq<Seq<char>>, i: int, ids: (Option<u32>, Option<u32>)) -> (
    Option<u32>,
    Option<u32>,
)
    decreases segs.len() - i,
{
    if i < 0 || i >= segs.len() {
        ids
    } else {
        segment_scan(segs, i + 1, segment_step(segs, i, ids))
    }
}

/// The map id that the numbers in a path give when no keyword gave one:
/// the last of several numbers, or the only number when no mapset id is
/// known.
pub open spec fn path_fallback(path_runs: Seq<Seq<char>>, mapset_id: Option<u32>) -> Option<u32> {
    let values = run_values(path_runs);
    if values.len() > 1 {
        Some(values.last())
    } else if values.len() == 1 && mapset_id is None {
        Some(values[0])
    } else {
        None
    }
}

/// The (mapset, map) ids that a parsed URL names, given the runs of digits
/// of its fragment, of its path and of its query: the fragment is read
/// first, then the path segments, then the numbers of the path, then the
/// query.
pub open spec fn url_ids_given(
    u: UrlView,
    fragment_runs: Seq<Seq<char>>,
    path_runs: Seq<Seq<char>>,
    query_runs: Seq<Seq<char>>,
) -> (Option<u32>, Option<u32>) {
    let from_fragment = if u.fragment is Some {
        last_run_number(fragment_runs)
    } else {
        None
    };
    let from_path = match u.path_segments {
        Some(segs) => {
            let scanned = segment_scan(non_empty_only(segs), 0, (None, from_fragment));
            if scanned.1 is None {
                (scanned.0, path_fallback(path_runs, scanned.0))
            } else {
                scanned
            }
        },
        None => (None, from_fragment),
    };
    if from_path.1 is None && u.query is Some {
        (from_path.0, last_run_number(query_runs))
    } else {
        from_path
    }
}

/// The (mapset, map) ids that a parsed URL names.
pub open spec fn url_ids(u: UrlView) -> (Option<u32>, Option<u32>) {
    url_ids_given(u, opt_digit_runs(u.fragment), digit_runs_spec(u.path), opt_digit_runs(u.query))
}

/// `https://`
pub open spec fn https_prefix() -> Seq<char> {
    seq!['h', 't', 't', 'p', 's', ':', '/', '/']
}

/// The (mapset, map) ids that a user's text names: a bare number is a map
/// id; otherwise the text, with `https://` put in front when it is no URL by
/// itself, is read as a URL.
pub open spec fn parse_beatmap_url_spec(s: Seq<char>) -> (Option<u32>, Option<u32>) {
    let t = trim_spec(s);
    match parse_u32_spec(t) {
        Some(n) => (None, Some(n)),
        None => {
            let candidate = if url_parse_result(t) is Some {
                t
            } else {
                https_prefix() + t
            };
            match url_parse_result(candidate) {
                Some(u) => url_ids(u),
                None => (None, None),
            }
        },
    }
}

/// The runs of digits of `s`.
fn digit_runs(s: &str) -> (r: Vec<String>)
    ensures
        views(r@) == digit_runs_spec(s@),
{
    let pattern = "\\d+";
    proof {
        reveal_strlit("\\d+");
        assert(pattern@ == digit_pattern());
    }
    match regex_find_all(pattern, s) {
        Some(runs) => runs,
        None => {
            let empty: Vec<String> = Vec::new();
            proof {
                assert(views(empty@) =~= seq![]);
            }
            empty
        },
    }
}

/// The runs of digits of an optional text.
fn opt_digit_runs_of(o: &Option<String>) -> (r: Vec<String>)
    ensures
        views(r@) == opt_digit_runs(opt_view(*o)),
{
    match o {
        Some(t) => digit_runs(t.as_str()),
        None => {
            let empty: Vec<String> = Vec::new();
            proof {
                assert(views(empty@) =~= seq![]);
            }
            empty
        },
    }
}

/// The number written by the last of the runs of digits `runs`.
pub fn last_number_of_runs(runs: &Vec<String>) -> (r: Option<u32>)
    ensures
        r == last_run_number(views(runs@)),
{
    if runs.len() == 0 {
        None
    } else {
        let last = runs.len() - 1;
        proof {
            assert(views(runs@)[last as int] == runs@[last as int]@);
        }
        parse_u32(runs[last].as_str())
    }
}

/// The numbers written by the runs of digits `runs` that fit in a `u32`.
pub fn numbers_of_runs(runs: &Vec<String>) -> (r: Vec<u32>)
    ensures
        r@ == run_values(views(runs@)),
{
    let ghost rs = views(runs@);
    let mut values: Vec<u32> = Vec::new();
    let mut i: usize = 0;
    while i < runs.len()
        invariant
            rs == views(runs@),
            i <= runs.len(),
            values@ == run_values(rs.take(i as int)),
        decreases runs.len() - i,
    {
        proof {
            assert(rs.take(i + 1).drop_last() =~= rs.take(i as int));
            assert(rs[i as int] == runs@[i as int]@);
        }
        match parse_u32(runs[i].as_str()) {
            Some(v) => values.push(v),
            None => {},
        }
        i = i + 1;
    }
    proof {
        assert(rs.take(runs.len() as int) =~= rs);
    }
    values
}

/// The segments of `segs` that are not empty.
fn non_empty_segments(segs: &Vec<String>) -> (r: Vec<String>)
    ensures
        views(r@) == non_empty_only(views(segs@)),
{
    let ghost sv = views(segs@);
    let mut out: Vec<String> = Vec::new();
    let mut i: usize = 0;
    while i < segs.len()
        invariant
            sv == views(segs@),
            i <= segs.len(),
            views(out@) == non_empty_only(sv.take(i as int)),
        decreases segs.len() - i,
    {
        proof {
            assert(sv.take(i + 1).drop_last() =~= sv.take(i as int));
            assert(sv[i as int] == segs@[i as int]@);
        }
        if !segs[i].as_str().is_empty() {
            let ghost before = out@;
            out.push(segs[i].clone());
            proof {
                assert(views(out@) =~= views(before).push(segs@[i as int]@));
            }
        }
        i = i + 1;
    }
    proof {
        assert(sv.take(segs.len() as int) =~= sv);
    }
    out
}

/// Reads the beatmap keywords of the (non-empty) path segments.
fn scan_segments(segs: &Vec<String>, map_id: Option<u32>) -> (r: (Option<u32>, Option<u32>))
    ensures
        r == segment_scan(views(segs@), 0, (None, map_id)),
{
    let ghost sv = views(segs@);
    let mut ids: (Option<u32>, Option<u32>) = (None, map_id);
    let mut i: usize = 0;
    while i < segs.len()
        invariant
            sv == views(segs@),
            i <= segs.len(),
            segment_scan(sv, 0, (None, map_id)) == segment_scan(sv, i as int, ids),
        decreases segs.len() - i,
    {
        proof {
            assert(sv[i as int] == segs@[i as int]@);
            if i + 1 < segs.len() {
                assert(sv[i + 1] == segs@[i + 1]@);
            }
            reveal_strlit("beatmapsets");
            reveal_strlit("beatmaps");
            reveal_strlit("beatmap");
            reveal_strlit("b");
        }
        let seg = segs[i].as_str();
        let has_next = i + 1 < segs.len();
        if str_eq(seg, "beatmapsets") && has_next {
            if ids.0.is_none() {
                ids = (parse_u32(segs[i + 1].as_str()), ids.1);
            }
        } else if (str_eq(seg, "beatmaps") || str_eq(seg, "beatmap") || str_eq(seg, "b"))
            && has_next && ids.1.is_none() {
            ids = (ids.0, parse_u32(segs[i + 1].as_str()));
        }
        i = i + 1;
    }
    ids
}

/// The (mapset, map) ids that a parsed URL names, given the runs of digits
/// of its fragment, its path and its query (in the order the regular
/// expression `\d+` finds them).
pub fn ids_from_url_parts(
    url: &UrlParts,
    fragment_runs: &Vec<String>,
    path_runs: &Vec<String>,
    query_runs: &Vec<String>,
) -> (r: ParsedUrlResult)
    ensures
        (r.mapset_id, r.map_id) == url_ids_given(
            url@,
            views(fragment_runs@),
            views(path_runs@),
            views(query_runs@),
        ),
{
    let from_fragment = if url.fragment.is_some() {
        last_number_of_runs(fragment_runs)
    } else {
        None
    };
    let from_path = match &url.path_segments {
        Some(segs) => {
            let kept = non_empty_segments(segs);
            let scanned = scan_segments(&kept, from_fragment);
            if scanned.1.is_none() {
                let values = numbers_of_runs(path_runs);
                let fallback = if values.len() > 1 {
                    Some(values[values.len() - 1])
                } else if values.len() == 1 && scanned.0.is_none() {
                    Some(values[0])
                } else {
                    None
                };
                (scanned.0, fallback)
            } else {
                scanned
            }
        },
        None => (None, from_fragment),
    };
    let ids = if from_path.1.is_none() && url.query.is_some() {
        (from_path.0, last_number_of_runs(query_runs))
    } else {
        from_path
    };
    ParsedUrlResult { mapset_id: ids.0, map_id: ids.1 }
}

/// Reads the beatmapset id and the beatmap id that a user's text names.
///
/// A bare number is a beatmap id. Any other text is read as a URL (with
/// `https://` put in front when it is none by itself): a number in the
/// fragment (`#osu/4924798`) gives the beatmap id; the path segments
/// `beatmapsets/<n>` and `beatmaps/<n>` (or `beatmap/<n>`, `b/<n>`) give
/// the ids they announce; failing that, the numbers of the path and then
/// of the query give the beatmap id.
pub fn parse_beatmap_url(s: &str) -> (r: ParsedUrlResult)
    ensures
        (r.mapset_id, r.map_id) == parse_beatmap_url_spec(s@),
{
    let trimmed = trim_str(s);
    if let Some(n) = parse_u32(trimmed) {
        return ParsedUrlResult { mapset_id: None, map_id: Some(n) };
    }
    let candidate = match parse_url(trimmed) {
        Some(_) => String::from_str(trimmed),
        None => {
            let mut c = String::from_str("https://");
            proof {
                reveal_strlit("https://");
                assert("https://"@ =~= https_prefix());
            }
            c.append(trimmed);
            c
        },
    };
    match parse_url(candidate.as_str()) {
        Some(url) => {
            let fragment_runs = opt_digit_runs_of(&url.fragment);
            let path_runs = digit_runs(url.path.as_str());
            let query_runs = opt_digit_runs_of(&url.query);
            ids_from_url_parts(&url, &fragment_runs, &path_runs, &query_runs)
        },
        None => ParsedUrlResult { mapset_id: None, map_id: None },
    }
}

/// The texts of an embed of a chat message: its link and its description.
pub struct EmbedText {
    pub url: Option<String>,
    pub description: Option<String>,
}

/// The abstract value of an embed's texts.
pub struct EmbedView {
    pub url: Option<Seq<char>>,
    pub description: Option<Seq<char>>,
}

/// The view of an optional string.
pub open spec fn opt_view(o: Option<String>) -> Option<Seq<char>> {
    match o {
        Some(s) => Some(s@),
        None => None,
    }
}

impl View for EmbedText {
    type V = EmbedView;

    open spec fn view(&self) -> EmbedView {
        EmbedView { url: opt_view(self.url), description: opt_view(self.description) }
    }
}

/// The views of a list of embeds.
pub open spec fn embed_views(v: Seq<EmbedText>) -> Seq<EmbedView> {
    v.map_values(|e: EmbedText| e@)
}

/// `osu.ppy.sh`, the host of osu! links.
pub open spec fn osu_host() -> Seq<char> {
    "osu.ppy.sh"@
}

/// The regular expression of an osu! link: `https?://osu\.ppy\.sh/[^\s]+`.
pub open spec fn osu_link_pattern() -> Seq<char> {
    "https?://osu\\.ppy\\.sh/[^\\s]+"@
}

/// The optional text holds `needle`.
pub open spec fn opt_contains(o: Option<Seq<char>>, needle: Seq<char>) -> bool {
    o matches Some(t) && contains_spec(t, needle)
}

/// The message mentions the osu! host: in its content (in any case), or
/// in the link or the description of one of its embeds.
pub open spec fn mentions_osu(content: Seq<char>, embeds: Seq<EmbedView>) -> bool {
    ||| contains_spec(unicode_lowercase(content), osu_host())
    ||| exists|j: int|
        0 <= j < embeds.len() && (opt_contains(#[trigger] embeds[j].url, osu_host()) || opt_contains(
            embeds[j].description,
            osu_host(),
        ))
}

/// The first osu! link in a text.
pub open spec fn first_link(text: Seq<char>) -> Option<Seq<char>> {
    match regex_first_match(osu_link_pattern(), text) {
        Some(m) => m,
        None => None,
    }
}

/// The first osu! link in an optional text.
pub open spec fn opt_first_link(o: Option<Seq<char>>) -> Option<Seq<char>> {
    match o {
        Some(t) => first_link(t),
        None => None,
    }
}

/// The osu! link of an embed: the one in its link, else the one in its
/// description.
pub open spec fn embed_link(e: EmbedView) -> Option<Seq<char>> {
    match opt_first_link(e.url) {
        Some(l) => Some(l),
        None => opt_first_link(e.description),
    }
}

/// The osu! link of the first embed that has one.
pub open spec fn first_embed_link(embeds: Seq<EmbedView>) -> Option<Seq<char>>
    decreases embeds.len(),
{
    if embeds.len() == 0 {
        None
    } else {
        match embed_link(embeds[0]) {
            Some(l) => Some(l),
            None => first_embed_link(embeds.drop_first()),
        }
    }
}

/// The osu! link of a chat message: none unless the message mentions the
/// osu! host; else the first link in its content, or failing that the link
/// of its first embed that has one.
pub open spec fn map_url_spec(content: Seq<char>, embeds: Seq<EmbedView>) -> Option<Seq<char>> {
    if !mentions_osu(content, embeds) {
        None
    } else {
        match first_link(content) {
            Some(l) => Some(l),
            None => first_embed_link(embeds),
        }
    }
}

/// Whether an optional text holds `needle`.
fn opt_str_contains(o: &Option<String>, needle: &str) -> (r: bool)
    ensures
        r == opt_contains(opt_view(*o), needle@),
{
    match o {
        Some(t) => str_contains(t.as_str(), needle),
        None => false,
    }
}

/// The first osu! link in a text.
fn find_link(text: &str) -> (r: Option<String>)
    ensures
        opt_view(r) == first_link(text@),
{
    let pattern = "https?://osu\\.ppy\\.sh/[^\\s]+";
    match regex_find(pattern, text) {
        Some(m) => m,
        None => None,
    }
}

/// The first osu! link in an optional text.
fn find_opt_link(o: &Option<String>) -> (r: Option<String>)
    ensures
        opt_view(r) == opt_first_link(opt_view(*o)),
{
    match o {
        Some(t) => find_link(t.as_str()),
        None => None,
    }
}

/// Finds the osu! link that a chat message carries, in its content or its
/// embeds; `None` when the message does not mention the osu! host.
pub fn map_url_from_msg(content: &str, embeds: &Vec<EmbedText>) -> (r: Option<String>)
    ensures
        opt_view(r) == map_url_spec(content@, embed_views(embeds@)),
{
    let ghost ev = embed_views(embeds@);
    let host = "osu.ppy.sh";
    proof {
        reveal_strlit("osu.ppy.sh");
        assert(host@ == osu_host());
    }
    let lowered = to_lowercase_string(content);
    let mut mentions = str_contains(lowered.as_str(), host);
    let mut i: usize = 0;
    while i < embeds.len() && !mentions
        invariant
            ev == embed_views(embeds@),
            host@ == osu_host(),
            i <= embeds.len(),
            mentions == (contains_spec(unicode_lowercase(content@), osu_host()) || exists|j: int|
                0 <= j < i && (opt_contains(#[trigger] ev[j].url, osu_host()) || opt_contains(
                    ev[j].description,
                    osu_host(),
                ))),
        decreases embeds.len() - i,
    {
        proof {
            assert(ev[i as int] == embeds@[i as int]@);
            assert(ev[i as int].url == opt_view(embeds@[i as int].url));
            assert(ev[i as int].description == opt_view(embeds@[i as int].description));
        }
        let hit = opt_str_contains(&embeds[i].url, host) || opt_str_contains(
            &embeds[i].description,
            host,
        );
        proof {
            assert(hit == (opt_contains(ev[i as int].url, osu_host()) || opt_contains(
                ev[i as int].description,
                osu_host(),
            )));
        }
        if hit {
            mentions = true;
        }
        i = i + 1;
    }
    proof {
        if !mentions {
            assert forall|j: int| 0 <= j < ev.len() implies !(opt_contains(
                #[trigger] ev[j].url,
                osu_host(),
            ) || opt_contains(ev[j].description, osu_host())) by {}
        }
    }
    if !mentions {
        return None;
    }
    if let Some(l) = find_link(content) {
        return Some(l);
    }
    proof {
        assert(ev.subrange(0, ev.len() as int) =~= ev);
    }
    let mut k: usize = 0;
    while k < embeds.len()
        invariant
            ev == embed_views(embeds@),
            k <= embeds.len(),
            map_url_spec(content@, ev) == first_embed_link(ev.subrange(k as int, ev.len() as int)),
        decreases embeds.len() - k,
    {
        proof {
            assert(ev[k as int] == embeds@[k as int]@);
            let rest = ev.subrange(k as int, ev.len() as int);
            assert(rest[0] == ev[k as int]);
            assert(rest.drop_first() =~= ev.subrange(k + 1, ev.len() as int));
        }
        let ghost rest = ev.subrange(k as int, ev.len() as int);
        let from_url = find_opt_link(&embeds[k].url);
        if from_url.is_some() {
            proof {
                assert(embed_link(rest[0]) == opt_view(from_url));
            }
            return from_url;
        }
        let from_description = find_opt_link(&embeds[k].description);
        if from_description.is_some() {
            proof {
                assert(embed_link(rest[0]) == opt_view(from_description));
            }
            return from_description;
        }
        proof {
            assert(embed_link(rest[0]) is None);
        }
        k = k + 1;
    }
    proof {
        assert(ev.subrange(k as int, ev.len() as int).len() == 0);
    }
    None
}

/// The number of best plays the osu! API keeps for a player.
pub const MAX_TOP_PLAY_COUNT: usize = 200;

/// The emoji of a miss.
pub const MISS_EMOJI: &'static str = "<:miss:1445495578862817280>";

/// The emoji of beats per minute.
pub const BPM_EMOJI: &'static str = "<:bpm:1437855552100368384>";

/// The emoji of a missed slider tick.
pub const TICK_MISS_EMOJI: &'static str = "<:slider_tick_miss:1441484864049123399>";

/// The emoji of a missed slider end.
pub const TAIL_MISS_EMOJI: &'static str = "<:slider_tail_miss:1441692017775083642>";

/// `{n300/n100/n50/miss}`
pub open spec fn hits_text(n300: nat, n100: nat, n50: nat, miss: nat) -> Seq<char> {
    "{"@ + dec(n300) + "/"@ + dec(n100) + "/"@ + dec(n50) + "/"@ + dec(miss) + "}"@
}

/// Writes the hit counts of a play as `{n300/n100/n50/miss}`.
pub fn format_hits(n300: u32, n100: u32, n50: u32, miss: u32) -> (r: String)
    ensures
        r@ == hits_text(n300 as nat, n100 as nat, n50 as nat, miss as nat),
{
    let mut s = String::from_str("{");
    s.append(u64_to_decimal(n300 as u64).as_str());
    s.append("/");
    s.append(u64_to_decimal(n100 as u64).as_str());
    s.append("/");
    s.append(u64_to_decimal(n50 as u64).as_str());
    s.append("/");
    s.append(u64_to_decimal(miss as u64).as_str());
    s.append("}");
    s
}

/// A duration in seconds as `m:ss`, or `h:mm:ss` from one hour on.
pub open spec fn song_length_text(seconds: nat) -> Seq<char> {
    let hours = seconds / 3600;
    let minutes = (seconds % 3600) / 60;
    let secs = seconds % 60;
    if hours < 1 {
        dec(minutes) + ":"@ + pad2(secs)
    } else {
        dec(hours) + ":"@ + pad2(minutes) + ":"@ + pad2(secs)
    }
}

/// The song-length text reads back to the seconds: it is `m:ss` below an
/// hour and `h:mm:ss` (with `h` at least 1) from one hour on, each field
/// parses back to its number, the two-digit fields are below 60, and
/// `h * 3600 + m * 60 + s` is the length (`h` being 0 in the short form).
pub proof fn lemma_song_length_reads_back(seconds: u32)
    ensures
        ({
            let h = seconds as nat / 3600;
            let m = (seconds as nat % 3600) / 60;
            let s = seconds as nat % 60;
            &&& m < 60 && s < 60
            &&& h * 3600 + m * 60 + s == seconds
            &&& seconds < 3600 ==> h == 0 && song_length_text(seconds as nat) == dec(m) + ":"@ + pad2(s)
            &&& seconds >= 3600 ==> h >= 1 && song_length_text(seconds as nat) == dec(h) + ":"@ + pad2(m)
                + ":"@ + pad2(s)
            &&& parse_u32_spec(dec(h)) == Some(h as u32)
            &&& parse_u32_spec(dec(m)) == Some(m as u32)
            &&& parse_u32_spec(pad2(m)) == Some(m as u32) && pad2(m).len() == 2
            &&& parse_u32_spec(pad2(s)) == Some(s as u32) && pad2(s).len() == 2
        }),
{
    let h = seconds as nat / 3600;
    let m = (seconds as nat % 3600) / 60;
    let s = seconds as nat % 60;
    assert(h * 3600 + m * 60 + s == seconds) by (nonlinear_arith)
        requires
            h == seconds as nat / 3600,
            m == (seconds as nat % 3600) / 60,
            s == seconds as nat % 60,
    ;
    lemma_parse_u32_reads_decimal(h as u32);
    lemma_parse_u32_reads_decimal(m as u32);
    lemma_parse_pad2_reads_back(m);
    lemma_parse_pad2_reads_back(s);
}

/// Writes a song's length in seconds as `m:ss`, or `h:mm:ss` from one hour
/// on.
pub fn formated_song_length(seconds: u32) -> (r: String)
    ensures
        r@ == song_length_text(seconds as nat),
{
    let hour = seconds / 3600;
    let minutes = (seconds % 3600) / 60;
    let secs = seconds % 60;
    if hour < 1 {
        let mut s = u64_to_decimal(minutes as u64);
        s.append(":");
        s.append(pad2_decimal(secs as u64).as_str());
        s
    } else {
        let mut s = u64_to_decimal(hour as u64);
        s.append(":");
        s.append(pad2_decimal(minutes as u64).as_str());
        s.append(":");
        s.append(pad2_decimal(secs as u64).as_str());
        s
    }
}

/// `https://osuflags.omkserver.nl/{country_code}-{size}.png`
pub open spec fn flag_url_text(country_code: Seq<char>, size: nat) -> Seq<char> {
    "https://osuflags.omkserver.nl/"@ + country_code + "-"@ + dec(size) + ".png"@
}

/// The address of a country's flag image of the given size.
pub fn get_flag_url(country_code: String, size: u16) -> (r: String)
    ensures
        r@ == flag_url_text(country_code@, size as nat),
{
    let mut s = String::from_str("https://osuflags.omkserver.nl/");
    s.append(country_code.as_str());
    s.append("-");
    s.append(u64_to_decimal(size as u64).as_str());
    s.append(".png");
    s
}

/// `<t:{unix_seconds}:R>`, which Discord shows as a time relative to now.
pub open spec fn relative_timestamp_text(unix_seconds: int) -> Seq<char> {
    "<t:"@ + signed_dec(unix_seconds) + ":R>"@
}

/// Writes a moment (in seconds since the Unix epoch) so that Discord shows
/// it relative to now.
pub fn relative_timestamp(unix_seconds: i64) -> (r: String)
    ensures
        r@ == relative_timestamp_text(unix_seconds as int),
{
    let mut s = String::from_str("<t:");
    s.append(i64_to_decimal(unix_seconds).as_str());
    s.append(":R>");
    s
}

/// The grade of a play.
#[derive(Clone, Copy, PartialEq, Eq, Structural)]
pub enum Grade {
    F,
    D,
    C,
    B,
    A,
    S,
    SH,
    X,
    XH,
}

/// The emoji of each grade.
pub open spec fn grade_emoji_text(grade: Grade) -> Seq<char> {
    match grade {
        Grade::X => "<:SS:1346458936596889640>"@,
        Grade::S => "<:S_:1346458998425128990>"@,
        Grade::XH => "<:SSH:1346459029656047646>"@,
        Grade::SH => "<:SH:1346459119741046794>"@,
        Grade::A => "<:A_:1346459159935193139>"@,
        Grade::B => "<:B_:1346459185512054814>"@,
        Grade::C => "<:C_:1346459204847796264>"@,
        Grade::D => "<:D_:1347295031756587039>"@,
        Grade::F => "<:F_:1346460123173879859>"@,
    }
}

/// The emoji of a grade.
pub fn grade_emoji(grade: Grade) -> (r: String)
    ensures
        r@ == grade_emoji_text(grade),
{
    let emoji = match grade {
        Grade::X => "<:SS:1346458936596889640>",
        Grade::S => "<:S_:1346458998425128990>",
        Grade::XH => "<:SSH:1346459029656047646>",
        Grade::SH => "<:SH:1346459119741046794>",
        Grade::A => "<:A_:1346459159935193139>",
        Grade::B => "<:B_:1346459185512054814>",
        Grade::C => "<:C_:1346459204847796264>",
        Grade::D => "<:D_:1347295031756587039>",
        Grade::F => "<:F_:1346460123173879859>",
    };
    String::from_str(emoji)
}

/// The text of missed slider ticks: the count and the emoji, or nothing
/// when none was missed.
pub open spec fn tick_miss_text(tick_miss: nat) -> Seq<char> {
    if tick_miss > 0 {
        dec(tick_miss) + TICK_MISS_EMOJI@
    } else {
        seq![]
    }
}

/// The text of missed slider ends: the count and the emoji, or nothing
/// when none was missed.
pub open spec fn tail_miss_text(tail_miss: nat) -> Seq<char> {
    if tail_miss > 0 {
        dec(tail_miss) + TAIL_MISS_EMOJI@
    } else {
        seq![]
    }
}

/// Writes the missed slider ticks: the count and the emoji, or nothing when
/// none was missed.
pub fn format_slider_tick_misses_from_stats(tick_miss: u32) -> (r: String)
    ensures
        r@ == tick_miss_text(tick_miss as nat),
{
    if tick_miss > 0 {
        let mut s = u64_to_decimal(tick_miss as u64);
        s.append(TICK_MISS_EMOJI);
        s
    } else {
        String::new()
    }
}

/// The missed slider ticks of a play, `None` when it missed none.
pub fn format_slider_tick_misses(tick_miss: u32) -> (r: Option<String>)
    ensures
        tick_miss == 0 <==> r is None,
        r matches Some(t) ==> t@ == tick_miss_text(tick_miss as nat),
{
    let text = format_slider_tick_misses_from_stats(tick_miss);
    proof {
        crate::text::lemma_dec_digits(tick_miss as nat);
    }
    if text.as_str().is_empty() {
        None
    } else {
        Some(text)
    }
}

/// The missed slider ticks then the missed slider ends of a play, `None`
/// when it missed neither.
pub fn format_slider_misses(tick_miss: u32, tail_miss: u32) -> (r: Option<String>)
    ensures
        (tick_miss == 0 && tail_miss == 0) <==> r is None,
        r matches Some(t) ==> t@ == tick_miss_text(tick_miss as nat) + tail_miss_text(tail_miss as nat),
{
    let tick_text = format_slider_tick_misses_from_stats(tick_miss);
    let tail_text = if tail_miss > 0 {
        let mut s = u64_to_decimal(tail_miss as u64);
        s.append(TAIL_MISS_EMOJI);
        s
    } else {
        String::new()
    };
    proof {
        crate::text::lemma_dec_digits(tick_miss as nat);
        crate::text::lemma_dec_digits(tail_miss as nat);
    }
    let has_any = !tick_text.as_str().is_empty() || !tail_text.as_str().is_empty();
    if has_any {
        let mut s = tick_text;
        s.append(tail_text.as_str());
        Some(s)
    } else {
        None
    }
}

/// The requests (limit, offset) that fetch `amount` best plays from
/// `offset` on: one request up to 100 plays, else 100 plays then the rest.
pub open spec fn best_play_requests(amount: nat, offset: nat) -> Seq<(nat, nat)> {
    if amount <= 100 {
        seq![(amount, offset)]
    } else {
        seq![(100, offset), ((amount - 100) as nat, offset + 100)]
    }
}

/// The requests, as (limit, offset), that fetch `amount` best plays of a
/// player from position `offset` on: the API gives at most 100 at a time,
/// so more are fetched in two requests.
pub fn personal_best_requests(amount: usize, offset: usize) -> (r: Vec<(usize, usize)>)
    requires
        amount <= 100 || offset + 100 <= usize::MAX,
    ensures
        r@.len() == best_play_requests(amount as nat, offset as nat).len(),
        forall|i: int|
            0 <= i < r@.len() ==> (r@[i].0 as nat, r@[i].1 as nat) == best_play_requests(
                amount as nat,
                offset as nat,
            )[i],
{
    let max_per_call: usize = 100;
    let mut requests: Vec<(usize, usize)> = Vec::new();
    if amount <= max_per_call {
        requests.push((amount, offset));
    } else {
        requests.push((max_per_call, offset));
        requests.push((amount - max_per_call, offset + max_per_call));
    }
    requests
}

/// Once a map id is known, reading more path segments keeps it.
proof fn lemma_scan_keeps_map_id(segs: Seq<Seq<char>>, i: int, ids: (Option<u32>, Option<u32>))
    requires
        ids.1 is Some,
    ensures
        segment_scan(segs, i, ids).1 == ids.1,
    decreases segs.len() - i,
{
    if 0 <= i < segs.len() {
        lemma_scan_keeps_map_id(segs, i + 1, segment_step(segs, i, ids));
    }
}

/// Reading the path segments from `start` on, with no map id yet and no map
/// keyword before position `i`, the map keyword at `i` followed by the
/// number `n` gives the map id `n`.
proof fn lemma_scan_reaches_keyword(
    segs: Seq<Seq<char>>,
    start: int,
    ids: (Option<u32>, Option<u32>),
    i: int,
    n: u32,
)
    requires
        0 <= start <= i,
        i + 1 < segs.len(),
        ids.1 is None,
        is_map_keyword(segs[i]),
        parse_u32_spec(segs[i + 1]) == Some(n),
        forall|j: int| start <= j < i ==> !is_map_keyword(#[trigger] segs[j]),
    ensures
        segment_scan(segs, start, ids).1 == Some(n),
    decreases i - start,
{
    reveal_strlit("beatmapsets");
    reveal_strlit("beatmaps");
    reveal_strlit("beatmap");
    reveal_strlit("b");
    let next = segment_step(segs, start, ids);
    if start == i {
        assert(segs[i] != "beatmapsets"@) by {
            if segs[i] == "beatmapsets"@ {
                assert(segs[i].len() == 11);
            }
        }
        assert(next.1 == Some(n));
        lemma_scan_keeps_map_id(segs, start + 1, next);
    } else {
        assert(!is_map_keyword(segs[start]));
        assert(next.1 is None);
        lemma_scan_reaches_keyword(segs, start + 1, next, i, n);
    }
}

/// A link path that names a map (a segment `beatmaps`, `beatmap` or `b`
/// followed by a number `n`, with no such keyword before it), in a link
/// without a fragment, names map `n`, whatever its query and the numbers
/// elsewhere in it.
pub proof fn lemma_path_keyword_names_map(
    u: UrlView,
    fragment_runs: Seq<Seq<char>>,
    path_runs: Seq<Seq<char>>,
    query_runs: Seq<Seq<char>>,
    i: int,
    n: u32,
)
    requires
        u.fragment is None,
        u.path_segments is Some,
        0 <= i,
        i + 1 < non_empty_only(u.path_segments->0).len(),
        is_map_keyword(non_empty_only(u.path_segments->0)[i]),
        parse_u32_spec(non_empty_only(u.path_segments->0)[i + 1]) == Some(n),
        forall|j: int| 0 <= j < i ==> !is_map_keyword(#[trigger] non_empty_only(u.path_segments->0)[j]),
    ensures
        url_ids_given(u, fragment_runs, path_runs, query_runs).1 == Some(n),
{
    let segs = non_empty_only(u.path_segments->0);
    lemma_scan_reaches_keyword(segs, 0, (None, None), i, n);
}

/// The query is read only when neither the fragment nor the path gave a map
/// id: when the link without its query names a map, the link with any query
/// names the same beatmapset and map.
pub proof fn lemma_query_read_only_without_map_id(
    u: UrlView,
    fragment_runs: Seq<Seq<char>>,
    path_runs: Seq<Seq<char>>,
    query_runs: Seq<Seq<char>>,
    other_query_runs: Seq<Seq<char>>,
)
    ensures
        ({
            let bare = UrlView {
                fragment: u.fragment,
                path: u.path,
                path_segments: u.path_segments,
                query: None,
            };
            url_ids_given(bare, fragment_runs, path_runs, other_query_runs).1 is Some ==> url_ids_given(
                u,
                fragment_runs,
                path_runs,
                query_runs,
            ) == url_ids_given(bare, fragment_runs, path_runs, other_query_runs)
        }),
{
}

/// An embed with an osu! link gives the embeds a link: the first embed
/// link exists.
proof fn lemma_embed_with_link_found(embeds: Seq<EmbedView>, j: int)
    requires
        0 <= j < embeds.len(),
        embed_link(embeds[j]) is Some,
    ensures
        first_embed_link(embeds) is Some,
    decreases embeds.len(),
{
    if embed_link(embeds[0]) is None {
        assert(j > 0);
        assert(embeds.drop_first()[j - 1] == embeds[j]);
        lemma_embed_with_link_found(embeds.drop_first(), j - 1);
    }
}

/// A message one of whose embeds has an osu! link in its url (a text that
/// holds `osu.ppy.sh`) carries a link: the first osu! link of its content
/// when there is one, else the link of its first embed that has one.
pub proof fn lemma_embed_url_link_found(content: Seq<char>, embeds: Seq<EmbedView>, j: int)
    requires
        0 <= j < embeds.len(),
        embeds[j].url is Some,
        contains_spec(embeds[j].url->0, osu_host()),
        first_link(embeds[j].url->0) is Some,
    ensures
        map_url_spec(content, embeds) is Some,
        map_url_spec(content, embeds) == (match first_link(content) {
            Some(l) => Some(l),
            None => first_embed_link(embeds),
        }),
{
    assert(opt_contains(embeds[j].url, osu_host()));
    assert(mentions_osu(content, embeds));
    assert(embed_link(embeds[j]) is Some);
    lemma_embed_with_link_found(embeds, j);
}

/// A text that is a bare number (once trimmed) names that beatmap and no
/// beatmapset.
pub proof fn lemma_bare_number_is_map_id(s: Seq<char>, n: u32)
    requires
        parse_u32_spec(trim_spec(s)) == Some(n),
    ensures
        parse_beatmap_url_spec(s) == (None::<u32>, Some(n)),
{
}

/// White space around a link does not change what it names.
pub proof fn lemma_link_ignores_surrounding_space(s: Seq<char>)
    ensures
        parse_beatmap_url_spec(trim_spec(s)) == parse_beatmap_url_spec(s),
{
    lemma_trim_idempotent(s);
}

/// A message that does not mention the osu! host carries no link.
pub proof fn lemma_no_mention_no_link(content: Seq<char>, embeds: Seq<EmbedView>)
    requires
        !mentions_osu(content, embeds),
    ensures
        map_url_spec(content, embeds) is None,
{
}

/// The requests for best plays ask for `amount` plays in all, at most 100
/// each, the second one starting where the first ends.
pub proof fn lemma_best_play_requests_cover(amount: nat, offset: nat)
    ensures
        best_play_requests(amount, offset).len() == 1 ==> best_play_requests(amount, offset)[0] == (
        amount,
        offset,
        ) && amount <= 100,
        best_play_requests(amount, offset).len() == 2 ==> {
            let r = best_play_requests(amount, offset);
            &&& r[0].0 + r[1].0 == amount
            &&& r[0].0 <= 100
            &&& r[1].1 == r[0].1 + r[0].0
            &&& r[0].1 == offset
        },
        1 <= best_play_requests(amount, offset).len() <= 2,
{
}

} // verus!
