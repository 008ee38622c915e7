use osu_bot::commands::{
    background_target, recent_score_position, score_map_id, top_score_position, BackgroundTarget,
};
use osu_bot::embeds::error::FailedMapErr;
use osu_bot::utils::database::{ChannelMapDb, ChannelMapLookup, MessageText, UserDb, UserId};
use osu_bot::utils::osu_utils::{EmbedText, ParsedUrlResult};

fn lookup(db: &ChannelMapDb, channel: u64) -> (Option<String>, Option<Option<u64>>) {
    match db.get_channel_map(channel) {
        ChannelMapLookup::Known(url) => (Some(url), None),
        ChannelMapLookup::ReadMessages(before) => (None, Some(before)),
    }
}

fn message(id: u64, content: &str) -> MessageText {
    MessageText { id, content: String::from(content), embeds: Vec::<EmbedText>::new() }
}

#[test]
fn recorded_link_is_given_back() {
    let mut db = ChannelMapDb::new();
    assert_eq!(lookup(&db, 1), (None, Some(None)));
    db.set_channel_map(1, String::from("https://osu.ppy.sh/b/1"), Some(100));
    assert_eq!(lookup(&db, 1), (Some(String::from("https://osu.ppy.sh/b/1")), None));
    db.set_channel_map(1, String::from("https://osu.ppy.sh/b/2"), Some(200));
    assert_eq!(lookup(&db, 1), (Some(String::from("https://osu.ppy.sh/b/2")), None));
    assert_eq!(lookup(&db, 2), (None, Some(None)));
}

#[test]
fn recorded_link_survives_later_steps() {
    let mut db = ChannelMapDb::new();
    db.set_channel_map(3, String::from("https://osu.ppy.sh/b/11"), Some(50));
    let _ = lookup(&db, 3);
    assert_eq!(
        db.finish_channel_scan(3, &vec![message(40, "https://osu.ppy.sh/b/12")]),
        Some(String::from("https://osu.ppy.sh/b/12"))
    );
    db.set_channel_map(4, String::from("https://osu.ppy.sh/b/13"), None);
    assert_eq!(db.finish_channel_scan(4, &vec![message(2, "none")]), None);
    assert_eq!(lookup(&db, 3), (Some(String::from("https://osu.ppy.sh/b/11")), None));
}

#[test]
fn channel_scan_records_oldest_message() {
    let mut db = ChannelMapDb::new();
    let msgs = vec![
        message(30, "nothing"),
        message(20, "https://osu.ppy.sh/b/7 and https://osu.ppy.sh/b/8"),
        message(10, "https://osu.ppy.sh/b/9"),
    ];
    assert_eq!(db.finish_channel_scan(5, &msgs), Some(String::from("https://osu.ppy.sh/b/7")));
    assert_eq!(lookup(&db, 5), (None, Some(Some(10))));
    assert_eq!(db.finish_channel_scan(5, &Vec::new()), None);
    assert_eq!(lookup(&db, 5), (None, Some(Some(10))));
    db.set_channel_map(5, String::from("x"), Some(99));
    assert_eq!(db.finish_channel_scan(6, &vec![message(1, "no link")]), None);
    assert_eq!(lookup(&db, 6), (None, Some(Some(1))));
}

#[test]
fn command_decisions() {
    let both = ParsedUrlResult { mapset_id: Some(1), map_id: Some(2) };
    let set_only = ParsedUrlResult { mapset_id: Some(1), map_id: None };
    let none = ParsedUrlResult { mapset_id: None, map_id: None };
    assert!(background_target(&both) == BackgroundTarget::Beatmap(2));
    assert!(background_target(&set_only) == BackgroundTarget::Beatmapset(1));
    assert!(background_target(&none) == BackgroundTarget::Invalid);
    assert!(score_map_id(&both) == Ok(2));
    assert!(score_map_id(&set_only) == Err(FailedMapErr::ExpectedDifficulty));
    assert!(score_map_id(&none) == Err(FailedMapErr::FailedUrlParse));
    assert_eq!(recent_score_position(1, 0), None);
    assert_eq!(recent_score_position(2, 5), Some(1));
    assert_eq!(top_score_position(0, 5), None);
    assert_eq!(top_score_position(5, 5), Some(4));
    assert_eq!(top_score_position(6, 5), None);
}

fn user_id_text(u: Option<UserId>) -> Option<String> {
    u.map(|u| match u {
        UserId::Id(id) => format!("id {}", id),
        UserId::Name(name) => format!("name {}", name),
    })
}

fn fresh_db_path(tag: &str) -> String {
    let nanos = std::time::SystemTime::now()
        .duration_since(std::time::UNIX_EPOCH)
        .map(|d| d.as_nanos())
        .unwrap_or(0);
    format!("/tmp/osu_bot_users_{}_{}.redb", tag, nanos)
}

#[test]
fn user_db_links_and_unlinks() {
    let path = fresh_db_path("links");
    let mut db = match UserDb::new(&path) {
        Ok(db) => db,
        Err(_) => panic!("Failed to create test db"),
    };
    let discord_id = 123456789012345678u64;

    // Nothing is linked on a fresh file.
    assert!(matches!(db.get_user_id(discord_id), Ok(None)));

    assert!(db.set_user_id(discord_id, UserId::Id(9255551)).is_ok());
    let read = db.get_user_id(discord_id).ok().and_then(user_id_text);
    assert_eq!(read, Some(String::from("id 9255551")));

    assert!(db.set_user_id(discord_id, UserId::Id(2)).is_ok());
    let read = db.get_user_id(discord_id).ok().and_then(user_id_text);
    assert_eq!(read, Some(String::from("id 2")));

    let removed = db.remove_user_id(discord_id).ok();
    assert_eq!(removed, Some(true));
    assert!(matches!(db.get_user_id(discord_id), Ok(None)));
    assert_eq!(db.remove_user_id(discord_id).ok(), Some(false));

    assert!(db.set_user_id(7, UserId::Name(String::from("peppy"))).is_ok());
    let read = db.get_user_id(7).ok().and_then(user_id_text);
    assert_eq!(read, Some(String::from("name peppy")));
}

#[test]
fn test_user_db_operations() {
    let test_db_file = fresh_db_path("operations");

    // 1. Initialize
    let mut db = match UserDb::new(&test_db_file) {
        Ok(db) => db,
        Err(_) => panic!("Failed to create test db"),
    };

    let discord_id = 123456789012345678u64;

    // 2. Test Get (should be None initially)
    let initial_get = db.get_user_id(discord_id).ok().map(user_id_text);
    assert_eq!(initial_get, Some(None));

    // 3. Test Set
    assert!(db.set_user_id(discord_id, UserId::Id(9255551u32)).is_ok(), "Failed to write user ID");

    // 4. Test Get (should return Some(9255551))
    let retrieved = db.get_user_id(discord_id).ok().map(user_id_text);
    assert_eq!(retrieved, Some(Some(String::from("id 9255551"))));

    // 5. Test Update
    assert!(db.set_user_id(discord_id, UserId::Id(2u32)).is_ok(), "Failed to update user ID");
    let updated = db.get_user_id(discord_id).ok().map(user_id_text);
    assert_eq!(updated, Some(Some(String::from("id 2"))));

    // 6. Test Remove
    let removed = db.remove_user_id(discord_id).ok();
    assert_eq!(removed, Some(true));
    assert!(matches!(db.get_user_id(discord_id), Ok(None)));
}

#[test]
fn user_db_link_by_name_replaces_link_by_id() {
    let path = fresh_db_path("replace");
    let mut db = match UserDb::new(&path) {
        Ok(db) => db,
        Err(_) => panic!("Failed to create test db"),
    };
    assert!(db.set_user_id(5, UserId::Id(42)).is_ok());
    assert!(db.set_user_id(6, UserId::Id(43)).is_ok());
    assert!(db.set_user_id(5, UserId::Name(String::from("peppy"))).is_ok());
    let read = db.get_user_id(5).ok().and_then(user_id_text);
    assert_eq!(read, Some(String::from("name peppy")));
    // The other user keeps the link.
    let other = db.get_user_id(6).ok().and_then(user_id_text);
    assert_eq!(other, Some(String::from("id 43")));
    // And back to an id.
    assert!(db.set_user_id(5, UserId::Id(7)).is_ok());
    let read = db.get_user_id(5).ok().and_then(user_id_text);
    assert_eq!(read, Some(String::from("id 7")));
    // A second unlink finds nothing.
    assert_eq!(db.remove_user_id(5).ok(), Some(true));
    assert_eq!(db.remove_user_id(5).ok(), Some(false));
    let other = db.get_user_id(6).ok().and_then(user_id_text);
    assert_eq!(other, Some(String::from("id 43")));
}
