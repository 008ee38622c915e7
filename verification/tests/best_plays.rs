use osu_bot::embeds::score::other_scores_text;
use osu_bot::utils::osu_pp::{
    highest_pp_index, highest_pp_score, is_in_pb, pb_index_of, pp_gain_inputs, IsPbResult, PpGainError,
    ScoreInfo, PP_KEY_ZERO,
};

/// The key of a non-negative pp value, as the bot computes it.
fn key(pp: f32) -> u32 {
    pp.to_bits() | 0x8000_0000
}

fn score(id: u64, map_id: u32, pp: Option<f32>, ended_at: i128) -> ScoreInfo {
    ScoreInfo { id, map_id, pp: pp.map(key), ended_at }
}

fn top_list() -> Vec<ScoreInfo> {
    vec![
        score(1, 10, Some(500.0), 0),
        score(2, 20, Some(400.0), 0),
        score(3, 30, Some(300.0), 0),
    ]
}

fn is(r: IsPbResult) -> (u8, usize) {
    match r {
        IsPbResult::InPB(i) => (0, i),
        IsPbResult::MissingPB(i) => (1, i),
        IsPbResult::IfRanked(i) => (2, i),
        IsPbResult::NotPB => (3, 0),
    }
}

#[test]
fn key_of_zero_is_the_zero_key() {
    assert_eq!(key(0.0), PP_KEY_ZERO);
    assert!(key(1.5) > key(1.25));
}

#[test]
fn listed_play_is_found_at_its_position() {
    let top = top_list();
    assert_eq!(pb_index_of(&top, 2), Some(2));
    assert_eq!(is(is_in_pb(&top, &score(3, 30, Some(300.0), 0), 0)), (0, 3));
}

#[test]
fn unlisted_ranked_play_is_placed_by_pp() {
    let top = top_list();
    assert_eq!(is(is_in_pb(&top, &score(9, 99, Some(450.0), 0), 0)), (1, 2));
    assert_eq!(is(is_in_pb(&top, &score(9, 99, Some(600.0), 0), 0)), (1, 1));
    assert_eq!(is(is_in_pb(&top, &score(9, 99, Some(100.0), 0), 0)), (1, 4));
}

#[test]
fn unranked_play_is_placed_by_its_computed_pp() {
    let top = top_list();
    assert_eq!(is(is_in_pb(&top, &score(9, 99, None, 0), key(350.0))), (2, 3));
}

#[test]
fn better_play_on_same_map_means_no_pb() {
    let top = top_list();
    assert_eq!(is(is_in_pb(&top, &score(9, 20, Some(350.0), 0), 0)), (3, 0));
    assert_eq!(is(is_in_pb(&top, &score(9, 20, Some(400.0), 0), 0)), (3, 0));
}

#[test]
fn equal_pp_in_list_means_no_pb() {
    let top = top_list();
    assert_eq!(is(is_in_pb(&top, &score(9, 99, Some(400.0), 0), 0)), (3, 0));
}

#[test]
fn full_list_leaves_no_room() {
    let mut top = Vec::new();
    for i in 0..200u64 {
        top.push(score(i, i as u32, Some(1000.0 - i as f32), 0));
    }
    assert_eq!(is(is_in_pb(&top, &score(999, 9999, Some(1.0), 0), 0)), (3, 0));
    assert_eq!(is(is_in_pb(&top, &score(999, 9999, Some(900.5), 0), 0)), (1, 101));
}

#[test]
fn pp_gain_needs_a_ranked_play() {
    let top = top_list();
    match pp_gain_inputs(&top, &score(9, 99, None, 5), &Vec::new()) {
        Err(PpGainError::NotRanked) => {}
        _ => panic!("an unranked play has no pp gain"),
    }
}

#[test]
fn pp_gain_refused_below_better_play() {
    let top = top_list();
    match pp_gain_inputs(&top, &score(9, 20, Some(100.0), 5), &Vec::new()) {
        Err(PpGainError::BetterScoreFound) => {}
        _ => panic!("a better play on the map means no gain"),
    }
}

#[test]
fn pp_gain_drops_the_play_and_what_it_beats() {
    let top = top_list();
    let play = score(2, 20, Some(400.0), 50);
    let map_scores = vec![
        score(7, 20, Some(250.0), 10),
        score(8, 20, Some(320.0), 20),
        score(2, 20, Some(400.0), 50),
        score(11, 20, Some(999.0), 60),
    ];
    let inputs = match pp_gain_inputs(&top, &play, &map_scores) {
        Ok(inputs) => inputs,
        Err(_) => panic!("the play is ranked and the best on its map"),
    };
    assert_eq!(inputs.top_pps, vec![key(500.0), key(300.0)]);
    assert_eq!(inputs.score_pp, key(400.0));
    assert_eq!(inputs.previous_pp, key(320.0));
}

#[test]
fn pp_gain_counts_lowest_twice_when_list_is_full() {
    let mut top = Vec::new();
    for i in 0..200u64 {
        top.push(score(i, i as u32, Some(1000.0 - i as f32), 0));
    }
    let play = score(5, 5, Some(995.0), 1);
    let inputs = match pp_gain_inputs(&top, &play, &Vec::new()) {
        Ok(inputs) => inputs,
        Err(_) => panic!("the play is ranked"),
    };
    assert_eq!(inputs.top_pps.len(), 200);
    assert_eq!(inputs.top_pps[0], key(1000.0));
    assert_eq!(inputs.top_pps[198], key(801.0));
    assert_eq!(inputs.top_pps[199], key(801.0));
    assert_eq!(inputs.previous_pp, PP_KEY_ZERO);
}

#[test]
fn highest_pp_is_taken_last_of_ties() {
    let pps = vec![Some(key(10.0)), None, Some(key(30.0)), Some(key(30.0)), Some(key(5.0))];
    assert_eq!(highest_pp_index(&pps), 3);
    let (picked, rest) = highest_pp_score(vec!["a", "b", "c", "d", "e"], &pps).unwrap();
    assert_eq!(picked, "d");
    assert_eq!(rest, vec!["a", "b", "c", "e"]);
}

#[test]
fn no_pp_takes_the_first_play() {
    let pps: Vec<Option<u32>> = vec![None, None];
    let (picked, rest) = highest_pp_score(vec![1, 2], &pps).unwrap();
    assert_eq!(picked, 1);
    assert_eq!(rest, vec![2]);
    assert!(highest_pp_score(Vec::<u8>::new(), &Vec::new()).is_none());
}

#[test]
fn other_scores_are_laid_out_in_texts() {
    assert_eq!(other_scores_text(&Vec::new()), vec![String::new()]);
    let lines = vec![String::from("\nfirst"), String::from("\nsecond")];
    assert_eq!(
        other_scores_text(&lines),
        vec![String::from("__Other scores on the beatmap:__\nfirst\nsecond")]
    );
}

#[test]
fn other_scores_start_a_new_text_past_1024_bytes() {
    let long = "x".repeat(1000);
    let lines = vec![long.clone(), long.clone(), String::from("y")];
    let texts = other_scores_text(&lines);
    assert_eq!(texts.len(), 3);
    assert_eq!(texts[0], "__Other scores on the beatmap:__");
    assert_eq!(texts[1], long);
    assert_eq!(texts[2], format!("{}y", long));
}

#[test]
fn other_scores_stop_at_25_texts() {
    let line = "z".repeat(1020);
    let lines: Vec<String> = (0..40).map(|_| line.clone()).collect();
    let texts = other_scores_text(&lines);
    assert_eq!(texts.len(), 25);
    assert!(texts.iter().skip(1).all(|t| *t == line));
}

#[test]
fn pp_gain_sorts_the_list_before_counting_the_lowest_twice() {
    let mut top = Vec::new();
    for i in 0..200u64 {
        top.push(score(i, i as u32, Some(10.0 + i as f32), 0));
    }
    let play = score(0, 0, Some(10.0), 1);
    let inputs = match pp_gain_inputs(&top, &play, &Vec::new()) {
        Ok(inputs) => inputs,
        Err(_) => panic!("the play is ranked"),
    };
    assert_eq!(inputs.top_pps.len(), 200);
    assert_eq!(inputs.top_pps[0], key(209.0));
    assert_eq!(inputs.top_pps[198], key(11.0));
    assert_eq!(inputs.top_pps[199], key(11.0));
}
