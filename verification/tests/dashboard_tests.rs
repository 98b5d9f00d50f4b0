use roseflower::dashboard::{
    get_multi_mode_name, get_multi_scoring_name, get_multi_team_name, render_multi_page, RoomCard, RoundCard,
    ScoreLine,
};
use roseflower::model::{DbLiveRoom, DbMultiGame, LiveSlotInfo, MultiStatsSummary};

#[test]
fn mode_scoring_and_team_names() {
    assert_eq!(get_multi_mode_name(0), "osu! Standard");
    assert_eq!(get_multi_mode_name(1), "Taiko");
    assert_eq!(get_multi_mode_name(2), "Catch");
    assert_eq!(get_multi_mode_name(3), "osu!mania");
    assert_eq!(get_multi_mode_name(4), "osu!");
    assert_eq!(get_multi_mode_name(-1), "osu!");
    assert_eq!(get_multi_scoring_name(0), "Score");
    assert_eq!(get_multi_scoring_name(1), "Accuracy");
    assert_eq!(get_multi_scoring_name(2), "Combo");
    assert_eq!(get_multi_scoring_name(3), "Score V2");
    assert_eq!(get_multi_scoring_name(9), "Score");
    assert_eq!(get_multi_team_name(0), "Head to Head");
    assert_eq!(get_multi_team_name(1), "Tag Co-op");
    assert_eq!(get_multi_team_name(2), "Team VS");
    assert_eq!(get_multi_team_name(3), "Tag Team VS");
    assert_eq!(get_multi_team_name(7), "Head to Head");
}

fn stats(rooms: usize, players: i64, rounds: usize) -> MultiStatsSummary {
    MultiStatsSummary { active_rooms: rooms, total_players: players, total_completed_rounds: rounds }
}

#[test]
fn empty_dashboard_shows_notice() {
    let page = render_multi_page("A&B", &stats(0, 0, 5), &vec![]);
    assert!(page.starts_with("<!DOCTYPE html>\n<html lang=\"en\">"));
    assert!(page.contains("No Active Multiplayer Rooms"));
    assert!(page.contains("round match results on <b>A&amp;B</b>."));
    assert!(page.contains("Active Rooms: <b style=\"color: #f472b6;\">0</b>"));
    assert!(page.contains("Players in Multi: <b>0</b>"));
    assert!(page.contains("Completed Rounds: <b>5</b>"));
    assert!(page.contains("<a href=\"https://hatsuneakiko.io.vn\">A&amp;B</a>"));
    assert!(page.contains(":root {\n            --bg-base: #0b0f19;"));
    assert!(page.ends_with("</html>\n"));
}

fn sample_room() -> RoomCard {
    let room = DbLiveRoom {
        match_id: 7,
        name: "<Fun> room".to_string(),
        host_id: 1,
        host_name: "h<x>".to_string(),
        beatmap_id: 123,
        beatmap_name: "Song \"A\"".to_string(),
        beatmap_md5: "md5".to_string(),
        mode: 3,
        scoring_type: 1,
        team_type: 2,
        mods: 0,
        in_progress: 1,
        player_count: 4,
        slots_json: "[]".to_string(),
        created_at: 0,
        updated_at: 0,
    };
    let slot = LiveSlotInfo {
        slot_id: 2,
        user_id: 9,
        username: "bob".to_string(),
        status: 2,
        status_text: "Ready".to_string(),
        team: 1,
        mods: 0,
    };
    let slot_far = LiveSlotInfo {
        slot_id: 11,
        user_id: 10,
        username: "carol".to_string(),
        status: 3,
        status_text: "?".to_string(),
        team: 0,
        mods: 0,
    };
    let game = |id: i64, winner: &str| DbMultiGame {
        id,
        match_id: 7,
        beatmap_id: 123,
        beatmap_name: format!("map {}", id),
        beatmap_md5: "md5".to_string(),
        mode: 3,
        scoring_type: 1,
        team_type: 2,
        mods: 0,
        played_at: 0,
        duration_seconds: 60,
        winner_id: 0,
        winner_name: winner.to_string(),
    };
    RoomCard {
        room,
        slots: vec![slot, slot_far],
        games: vec![
            RoundCard {
                game: game(2, "alice"),
                scores: vec![
                    ScoreLine {
                        username: "alice".to_string(),
                        score: 1234567,
                        accuracy_text: "98.5".to_string(),
                        passed: 1,
                    },
                    ScoreLine { username: "bob".to_string(), score: 5, accuracy_text: "1.0".to_string(), passed: 0 },
                ],
            },
            RoundCard { game: game(1, ""), scores: vec![] },
        ],
    }
}

#[test]
fn room_card_shows_room_slots_and_rounds() {
    let page = render_multi_page("Srv", &stats(1, 4, 2), &vec![sample_room()]);
    assert!(!page.contains("No Active Multiplayer Rooms"));
    assert!(page.contains("margin: 0;\">&lt;Fun&gt; room</h3>"));
    assert!(page.contains(">Room #7</span>"));
    assert!(page.contains("Host: <b style=\"color: #e2e8f0;\">h&lt;x&gt;</b>"));
    assert!(page.contains("IN MATCH"));
    assert!(!page.contains("WAITING IN LOBBY"));
    assert!(page.contains("<a href=\"https://osu.ppy.sh/b/123\" target=\"_blank\""));
    assert!(page.contains(">Song &quot;A&quot;</a>"));
    assert!(page.contains("margin-top:0.2rem;\">osu!mania</div>"));
    assert!(page.contains("Accuracy &bull; Team VS"));
    assert!(page.contains("4/16 Players"));
    assert!(page.contains(">#03</span>"));
    assert!(page.contains(">#12</span>"));
    assert!(page.contains("title=\"Blue Team\""));
    assert!(page.contains("\u{2713} Ready"));
    assert!(page.contains(">Open</span>"));
    assert!(page.contains("Recent Rounds Played"));
    let first = page.find("Round #2 - map 2").unwrap();
    let second = page.find("Round #1 - map 1").unwrap();
    assert!(first < second);
    assert!(page.contains("\u{1F451} Winner: alice"));
    assert!(page.contains("alice: <b>1,234,567</b> (98.5%) \u{2713}</span> "));
    assert!(page.contains("bob: <b>5</b> (1.0%) \u{2717}</span> "));
    assert!(page.contains("Players in Multi: <b>4</b>"));
}

#[test]
fn waiting_room_without_beatmap_or_rounds() {
    let mut card = sample_room();
    card.room.in_progress = 0;
    card.room.beatmap_id = 0;
    card.games = vec![];
    card.slots = vec![];
    let page = render_multi_page("Srv", &stats(1, 0, 0), &vec![card]);
    assert!(page.contains("WAITING IN LOBBY"));
    assert!(page.contains("<span style=\"color: #94a3b8;\">Song &quot;A&quot;</span>"));
    assert!(!page.contains("osu.ppy.sh/b/"));
    assert!(!page.contains("Recent Rounds Played"));
}

fn markup_chars(s: &str) -> String {
    s.chars().filter(|c| matches!(c, '<' | '>' | '"' | '\'')).collect()
}

#[test]
fn user_text_adds_no_markup_to_page() {
    let plain = sample_room();
    let mut hostile = sample_room();
    hostile.room.name = "<script>alert('x')</script>".to_string();
    hostile.room.host_name = "\"><img src=x>".to_string();
    hostile.room.beatmap_name = "'\"<>".to_string();
    hostile.slots[0].username = "<b>".to_string();
    hostile.games[0].game.winner_name = "<i>w</i>".to_string();
    hostile.games[0].game.beatmap_name = "</div>".to_string();
    hostile.games[0].scores[0].username = "'quoted'".to_string();
    let a = render_multi_page("Srv", &stats(1, 4, 2), &vec![plain]);
    let b = render_multi_page("<Srv \"x\">", &stats(1, 4, 2), &vec![hostile]);
    assert_ne!(a, b);
    assert_eq!(markup_chars(&a), markup_chars(&b));
    assert!(!b.contains("<script>"));
}
