use osu_bot::embeds::common::{
    author_name_text, if_fc_text, other_score_line_text, profile_description_text, profile_url,
    score_field_name_text, score_field_value_text, score_title_text, slider_stats_text, team_link_text,
    MapSettingsText,
};
use osu_bot::embeds::error::{failed_map_text, not_enough_scores_text, player_not_found_text, FailedMapErr};
use osu_bot::embeds::recent::{if_ranked_pb_text, personal_best_text};
use osu_bot::resource_handler::{all_categories, category_path, map_file_name, resource_path, ResourceCategory};
use osu_bot::strings::{parse_u32, str_contains, str_eq};
use osu_bot::text::{i64_to_decimal, pad2_decimal, u64_to_comma_decimal, u64_to_decimal};
use osu_bot::utils::osu_utils::{
    format_hits, format_slider_misses, format_slider_tick_misses, formated_song_length, get_flag_url,
    grade_emoji, personal_best_requests, relative_timestamp, Grade,
};
use osu_bot::utils::{discord_time_ago, formatted_song_length, map_osu_file_url, wrap_in_tilde, CommaFormat};

#[test]
fn numbers_are_written_in_decimal() {
    assert_eq!(u64_to_decimal(0), "0");
    assert_eq!(u64_to_decimal(1234567890), "1234567890");
    assert_eq!(i64_to_decimal(-42), "-42");
    assert_eq!(i64_to_decimal(i64::MIN), "-9223372036854775808");
    assert_eq!(pad2_decimal(7), "07");
    assert_eq!(pad2_decimal(42), "42");
}

#[test]
fn comma_format_groups_thousands() {
    assert_eq!(u64_to_comma_decimal(999), "999");
    assert_eq!(u64_to_comma_decimal(1000), "1,000");
    assert_eq!(1234567u32.format(), "1,234,567");
    assert_eq!((-1234i32).format(), "-1,234");
    assert_eq!(1000005u64.format(), "1,000,005");
    assert_eq!(0usize.format(), "0");
    assert_eq!(i64::MIN.format(), "-9,223,372,036,854,775,808");
}

#[test]
fn hits_and_lengths() {
    assert_eq!(format_hits(1000, 20, 3, 0), "{1000/20/3/0}");
    assert_eq!(formated_song_length(59), "0:59");
    assert_eq!(formated_song_length(61), "1:01");
    assert_eq!(formated_song_length(3661), "1:01:01");
    assert_eq!(formatted_song_length(7325), "2:02:05");
}

#[test]
fn links_and_timestamps() {
    assert_eq!(get_flag_url(String::from("US"), 256), "https://osuflags.omkserver.nl/US-256.png");
    assert_eq!(map_osu_file_url(4924798), "https://osu.ppy.sh/osu/4924798");
    assert_eq!(relative_timestamp(1700000000), "<t:1700000000:R>");
    assert_eq!(discord_time_ago(-5), "<t:-5:R>");
    assert_eq!(wrap_in_tilde(String::from("mrekk")), "`mrekk`");
    assert_eq!(profile_url("mrekk"), "https://osu.ppy.sh/users/mrekk/osu");
    assert_eq!(team_link_text("Team", 12), "[Team](https://osu.ppy.sh/teams/12)");
}

#[test]
fn grade_emojis() {
    assert_eq!(grade_emoji(Grade::X), "<:SS:1346458936596889640>");
    assert_eq!(grade_emoji(Grade::F), "<:F_:1346460123173879859>");
    assert_eq!(osu_bot::utils::grade_emoji(String::from("ss")), "<:SS:1346458936596889640>");
    assert_eq!(osu_bot::utils::grade_emoji(String::from("XH")), "<:SSH:1346459029656047646>");
    assert_eq!(osu_bot::utils::grade_emoji(String::from("Z")), "invalid_grade");
}

#[test]
fn slider_miss_texts() {
    assert_eq!(format_slider_tick_misses(0), None);
    assert_eq!(
        format_slider_tick_misses(3),
        Some(String::from("3<:slider_tick_miss:1441484864049123399>"))
    );
    assert_eq!(format_slider_misses(0, 0), None);
    assert_eq!(
        format_slider_misses(0, 2),
        Some(String::from("2<:slider_tail_miss:1441692017775083642>"))
    );
    assert_eq!(
        format_slider_misses(1, 2),
        Some(String::from(
            "1<:slider_tick_miss:1441484864049123399>2<:slider_tail_miss:1441692017775083642>"
        ))
    );
}

#[test]
fn failure_texts() {
    assert_eq!(player_not_found_text("abc"), "User `abc` was not found");
    assert_eq!(not_enough_scores_text("abc", 0, true), "`abc` has no recent passes");
    assert_eq!(not_enough_scores_text("abc", 1, true), "`abc` only has 1 recent pass");
    assert_eq!(not_enough_scores_text("abc", 3, true), "`abc` only has 3 recent passes");
    assert_eq!(not_enough_scores_text("abc", 0, false), "`abc` has no recent scores");
    assert_eq!(not_enough_scores_text("abc", 1, false), "`abc` only has 1 recent score");
    assert_eq!(not_enough_scores_text("abc", 12, false), "`abc` only has 12 recent scores");
    assert_eq!(
        failed_map_text(FailedMapErr::ExpectedDifficulty),
        "Expected a map difficulty, found mapset\nfrom specfied beatmap or last beatmap in channel"
    );
    assert_eq!(
        failed_map_text(FailedMapErr::FailedUrlParse),
        "Invalid specfied Beatmap URL or last Beatmap URL in channel"
    );
}

#[test]
fn reply_texts() {
    assert_eq!(
        author_name_text("mrekk", "25,000", "1", "AU", "1"),
        "mrekk: 25,000pp (#1 AU1)"
    );
    assert_eq!(score_title_text("A", "B", "C", "7.5"), "A - B [C] [7.5★]");
    assert_eq!(personal_best_text(3), "**__Personal Best #3__**");
    assert_eq!(if_ranked_pb_text(9), "__Personal Best #9__ • **If Ranked**");
    assert_eq!(osu_bot::embeds::score::personal_best_text(4), "__**Personal Best #4**__");
}

#[test]
fn resource_paths() {
    assert_eq!(category_path(ResourceCategory::MapData), "./resources/map_data/");
    assert_eq!(category_path(ResourceCategory::Score), "./resources/scores/");
    assert_eq!(
        resource_path(ResourceCategory::MapData, map_file_name(42).as_str()),
        "./resources/map_data/42.osu"
    );
    let all = all_categories();
    assert_eq!(all.len(), 2);
    assert!(all[0] == ResourceCategory::Score);
    assert!(all[1] == ResourceCategory::MapData);
}

#[test]
fn best_play_requests_are_split_by_hundred() {
    assert_eq!(personal_best_requests(50, 0), vec![(50, 0)]);
    assert_eq!(personal_best_requests(100, 7), vec![(100, 7)]);
    assert_eq!(personal_best_requests(200, 0), vec![(100, 0), (100, 100)]);
    assert_eq!(personal_best_requests(150, 10), vec![(100, 10), (50, 110)]);
}

#[test]
fn string_helpers() {
    assert_eq!(parse_u32("0"), Some(0));
    assert_eq!(parse_u32("4294967295"), Some(u32::MAX));
    assert_eq!(parse_u32("4294967296"), None);
    assert_eq!(parse_u32("-1"), None);
    assert_eq!(parse_u32("+"), None);
    assert_eq!(parse_u32(""), None);
    assert_eq!(parse_u32("12a"), None);
    assert_eq!(parse_u32("007"), Some(7));
    assert!(str_contains("abc osu.ppy.sh", "osu.ppy.sh"));
    assert!(str_contains("abc", ""));
    assert!(!str_contains("ab", "abc"));
    assert!(str_eq("é", "é"));
    assert!(!str_eq("a", "b"));
}

#[test]
fn score_field_texts() {
    assert_eq!(slider_stats_text(0, 0), "");
    assert_eq!(slider_stats_text(2, 0), " •  2<:slider_tick_miss:1441484864049123399>");
    assert_eq!(
        if_fc_text("512.3", 1000, 5, 0, 0, "99.1", 0),
        "**If FC** (__512.3 PP__)  • {1000/5/0/0} • **99.1%**\n"
    );
    assert_eq!(
        if_fc_text("1", 1, 2, 3, 0, "90", 4),
        "**If FC** (__1 PP__)  • {1/2/3/0} • **90%** • 4<:slider_tail_miss:1441692017775083642>\n"
    );
    assert_eq!(
        score_field_name_text(Grade::A, "@50%", "97.5", "+HD", 1234567, 10),
        "<:A_:1346459159935193139>@50%\t97.5%\t+HD\t1,234,567\t<t:10:R>"
    );
    let settings = MapSettingsText {
        cs: String::from("4"),
        ar: String::from("9.3"),
        od: String::from("8"),
        hp: String::from("5"),
        bpm: String::from("180"),
    };
    assert_eq!(
        score_field_value_text("300", "350", "{1/2/3/4}", 700, 800, "", "", &settings, 125),
        "**300**/350 PP • {1/2/3/4} • **700**/800x \n`CS: 4 AR: 9.3 OD: 8 HP: 5` • `2:05` • <:bpm:1437855552100368384> **180**"
    );
    assert_eq!(
        other_score_line_text(Grade::S, "HR", "6.5", "250", "98", 900, true, 0, 0, 5),
        "\n<:S_:1346458998425128990> **+HR** [6.5★] 250pp (98%) 900x • FC <t:5:R>"
    );
    assert_eq!(
        other_score_line_text(Grade::B, "NM", "5", "100", "90", 10, false, 3, 1, 5),
        "\n<:B_:1346459185512054814> **+NM** [5★] 100pp (90%) 10x • 3<:miss:1445495578862817280>1<:slider_tick_miss:1441484864049123399> <t:5:R>"
    );
    assert_eq!(
        profile_description_text("98.5", 100, "1234h", 54321, None, "`none`", None),
        "Accuracy: `98.5%` • Level: `100`\nPlaytime: `1234h` • Playcount: `54,321`\nMedals: `-` • Team: `none`"
    );
    assert_eq!(
        profile_description_text("90", 1, "-", 0, Some(12), "[T](x)", Some((1500, 7))),
        "Accuracy: `90%` • Level: `1`\nPlaytime: `-` • Playcount: `0`\nMedals: `12` • Team: [T](x)\nPeak rank: `1,500` • <t:7:R>"
    );
}

#[test]
fn written_numbers_read_back() {
    for n in [0u32, 7, 10, 99, 1000, 4294967295] {
        assert_eq!(parse_u32(u64_to_decimal(n as u64).as_str()), Some(n));
    }
    assert_eq!(u64_to_comma_decimal(1234567).replace(',', ""), u64_to_decimal(1234567));
}

#[test]
fn resources_of_different_kinds_have_different_paths() {
    assert_ne!(
        resource_path(ResourceCategory::MapData, "a"),
        resource_path(ResourceCategory::Score, "a")
    );
    assert_ne!(
        resource_path(ResourceCategory::Score, "a"),
        resource_path(ResourceCategory::Score, "b")
    );
}
