use roseflower::model::{group_scores, page_stats, scores_query, summarize_stats, DbLiveRoom, MultiStatsSummary};

fn room(match_id: i64, players: i64) -> DbLiveRoom {
    DbLiveRoom {
        match_id,
        name: format!("room {}", match_id),
        host_id: 1,
        host_name: "host".to_string(),
        beatmap_id: 0,
        beatmap_name: String::new(),
        beatmap_md5: String::new(),
        mode: 0,
        scoring_type: 0,
        team_type: 0,
        mods: 0,
        in_progress: 0,
        player_count: players,
        slots_json: "[]".to_string(),
        created_at: 0,
        updated_at: 0,
    }
}

#[test]
fn stats_count_rooms_and_players() {
    let rooms = vec![room(1, 3), room(2, 5), room(3, 0)];
    let s = summarize_stats(&rooms, Some(12)).unwrap();
    assert_eq!(s.active_rooms, 3);
    assert_eq!(s.total_players, 8);
    assert_eq!(s.total_completed_rounds, 12);
}

#[test]
fn stats_without_round_count_use_zero() {
    let rooms = vec![room(1, 4)];
    let s = summarize_stats(&rooms, None).unwrap();
    assert_eq!(s.total_completed_rounds, 0);
    assert_eq!(s.total_players, 4);
    let empty: Vec<DbLiveRoom> = Vec::new();
    let e = summarize_stats(&empty, Some(0)).unwrap();
    assert_eq!(e.active_rooms, 0);
    assert_eq!(e.total_players, 0);
}

#[test]
fn stats_detect_player_overflow() {
    let rooms = vec![room(1, i64::MAX), room(2, 1)];
    assert!(summarize_stats(&rooms, Some(0)).is_none());
    let rooms = vec![room(1, i64::MAX), room(2, -1), room(3, 1)];
    assert_eq!(summarize_stats(&rooms, Some(0)).unwrap().total_players, i64::MAX);
    let rooms = vec![room(1, i64::MAX), room(2, 1), room(3, -5)];
    assert!(summarize_stats(&rooms, Some(0)).is_none());
}

#[test]
fn scores_query_lists_the_rounds() {
    assert_eq!(scores_query(&vec![]), None);
    assert_eq!(
        scores_query(&vec![7]).unwrap(),
        "SELECT * FROM multi_scores WHERE game_id IN (7) ORDER BY score DESC"
    );
    assert_eq!(
        scores_query(&vec![12, 3, -4]).unwrap(),
        "SELECT * FROM multi_scores WHERE game_id IN (12,3,-4) ORDER BY score DESC"
    );
}

#[test]
fn scores_are_grouped_under_their_round() {
    let games = vec![10, 11, 12];
    let scores = vec![11, 10, 11, 99, 10];
    let groups = group_scores(&games, &scores);
    assert_eq!(groups, vec![vec![1, 4], vec![0, 2], vec![]]);
}

#[test]
fn first_round_with_an_id_takes_its_scores() {
    let games = vec![5, 6, 5];
    let scores = vec![5, 5, 6];
    let groups = group_scores(&games, &scores);
    assert_eq!(groups, vec![vec![0, 1], vec![2], vec![]]);
    let none = group_scores(&vec![], &scores);
    assert!(none.is_empty());
}

#[test]
fn page_stats_prefer_stored_counts() {
    let stored = MultiStatsSummary { active_rooms: 9, total_players: 30, total_completed_rounds: 4 };
    let rooms = vec![room(1, 3), room(2, 5)];
    assert_eq!(page_stats(Some(stored), &rooms), Some(stored));
    let fallback = page_stats(None, &rooms).unwrap();
    assert_eq!(fallback, MultiStatsSummary { active_rooms: 2, total_players: 8, total_completed_rounds: 0 });
    let big = vec![room(1, i64::MAX), room(2, 1)];
    assert_eq!(page_stats(None, &big), None);
    assert_eq!(page_stats(Some(stored), &big), Some(stored));
}
