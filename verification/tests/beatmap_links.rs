use osu_bot::utils::osu_utils::{map_url_from_msg, parse_beatmap_url, EmbedText};

fn ids(text: &str) -> (Option<u32>, Option<u32>) {
    let r = parse_beatmap_url(text);
    (r.mapset_id, r.map_id)
}

#[test]
fn bare_number_is_a_map_id() {
    assert_eq!(ids("4924798"), (None, Some(4924798)));
    assert_eq!(ids("  4924798 \n"), (None, Some(4924798)));
    assert_eq!(ids("+17"), (None, Some(17)));
}

#[test]
fn fragment_names_the_difficulty() {
    assert_eq!(
        ids("https://osu.ppy.sh/beatmapsets/2285243#osu/4924798"),
        (Some(2285243), Some(4924798))
    );
}

#[test]
fn link_without_scheme_is_read() {
    assert_eq!(
        ids("osu.ppy.sh/beatmapsets/2285243#osu/4924798"),
        (Some(2285243), Some(4924798))
    );
}

#[test]
fn mapset_link_is_no_map_id() {
    assert_eq!(ids("https://osu.ppy.sh/beatmapsets/2285243"), (Some(2285243), None));
}

#[test]
fn beatmap_keywords_name_the_map() {
    assert_eq!(ids("https://osu.ppy.sh/beatmaps/4924798"), (None, Some(4924798)));
    assert_eq!(ids("https://osu.ppy.sh/b/123"), (None, Some(123)));
    assert_eq!(ids("https://osu.ppy.sh/beatmap/55"), (None, Some(55)));
}

#[test]
fn last_number_of_path_is_the_map() {
    assert_eq!(ids("https://osu.ppy.sh/beatmapsets/1/2"), (Some(1), Some(2)));
    assert_eq!(ids("https://example.com/x/777"), (None, Some(777)));
}

#[test]
fn query_gives_the_map_last() {
    assert_eq!(ids("https://osu.ppy.sh/p/beatmap?b=555&m=0"), (None, Some(0)));
    assert_eq!(ids("https://osu.ppy.sh/p/beatmap?b=555"), (None, Some(555)));
}

#[test]
fn text_that_is_no_link_names_nothing() {
    assert_eq!(ids("not a link at all"), (None, None));
    assert_eq!(ids(""), (None, None));
}

#[test]
fn message_link_is_found_in_content() {
    let embeds: Vec<EmbedText> = Vec::new();
    let found = map_url_from_msg("look https://osu.ppy.sh/b/123 nice", &embeds);
    assert_eq!(found, Some(String::from("https://osu.ppy.sh/b/123")));
}

#[test]
fn message_link_is_found_in_embeds() {
    let embeds = vec![
        EmbedText { url: None, description: Some(String::from("no link")) },
        EmbedText {
            url: Some(String::from("https://example.com")),
            description: Some(String::from("see http://osu.ppy.sh/beatmapsets/9#osu/10 here")),
        },
    ];
    let found = map_url_from_msg("hello", &embeds);
    assert_eq!(found, Some(String::from("http://osu.ppy.sh/beatmapsets/9#osu/10")));
}

#[test]
fn message_without_osu_host_has_no_link() {
    let embeds = vec![EmbedText { url: Some(String::from("https://example.com/1")), description: None }];
    assert_eq!(map_url_from_msg("https://example.com/b/1", &embeds), None);
}

#[test]
fn host_in_other_case_is_noticed_but_link_must_match() {
    let embeds: Vec<EmbedText> = Vec::new();
    assert_eq!(map_url_from_msg("HTTPS://OSU.PPY.SH/b/1", &embeds), None);
}
