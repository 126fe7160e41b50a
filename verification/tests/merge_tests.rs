use scoreboard_merge::merge::{
    merge_player_scores, process_scoreboard, sat_add, scoreboard_excluding_player,
    scoreboard_for_player,
};
use scoreboard_merge::model::{
    DisplaySlot, Objectives, PlayerScore, ScoreboardData, ScoreboardRoot, Teams,
};
use scoreboard_merge::ScoreboardError;

fn ps(objective: &str, name: &str, score: Option<i32>, locked: Option<i8>) -> PlayerScore {
    PlayerScore {
        objective: objective.to_string(),
        name: name.to_string(),
        score,
        locked,
    }
}

#[test]
fn shared_objective_scores_sum() {
    let scores = vec![ps("kills", "alice", Some(5), None), ps("kills", "bob", Some(3), None)];
    let merged = merge_player_scores(scores, &"alice".to_string(), &"bob".to_string()).unwrap();
    assert_eq!(merged, vec![ps("kills", "bob", Some(8), None)]);
}

#[test]
fn missing_destination_objective_takes_source_score() {
    let scores = vec![ps("deaths", "alice", Some(2), None), ps("kills", "bob", Some(3), None)];
    let merged = merge_player_scores(scores, &"alice".to_string(), &"bob".to_string()).unwrap();
    assert_eq!(
        merged,
        vec![ps("deaths", "bob", Some(2), None), ps("kills", "bob", Some(3), None)]
    );
}

#[test]
fn absent_source_is_name_not_found() {
    let scores = vec![ps("kills", "bob", Some(3), None), ps("kills", "carol", Some(1), None)];
    let r = merge_player_scores(scores, &"ghost".to_string(), &"bob".to_string());
    assert_eq!(r, Err(ScoreboardError::NameNotFound));
}

#[test]
fn absent_source_on_empty_list_is_name_not_found() {
    let r = merge_player_scores(Vec::new(), &"alice".to_string(), &"bob".to_string());
    assert_eq!(r, Err(ScoreboardError::NameNotFound));
}

#[test]
fn absent_destination_renames_source_entries() {
    let scores = vec![
        ps("kills", "alice", Some(5), Some(1)),
        ps("deaths", "alice", Some(2), None),
    ];
    let merged = merge_player_scores(scores, &"alice".to_string(), &"bob".to_string()).unwrap();
    assert_eq!(
        merged,
        vec![ps("kills", "bob", Some(5), Some(1)), ps("deaths", "bob", Some(2), None)]
    );
}

#[test]
fn other_players_keep_their_order() {
    let scores = vec![
        ps("kills", "carol", Some(9), None),
        ps("kills", "alice", Some(5), None),
        ps("deaths", "dave", Some(7), None),
        ps("kills", "bob", Some(3), None),
        ps("deaths", "carol", Some(4), None),
    ];
    let merged = merge_player_scores(scores, &"alice".to_string(), &"bob".to_string()).unwrap();
    assert_eq!(
        merged,
        vec![
            ps("kills", "carol", Some(9), None),
            ps("deaths", "dave", Some(7), None),
            ps("deaths", "carol", Some(4), None),
            ps("kills", "bob", Some(8), None),
        ]
    );
}

#[test]
fn lock_flag_prefers_destination_when_shared() {
    let scores = vec![
        ps("kills", "alice", Some(5), Some(0)),
        ps("kills", "bob", Some(3), Some(1)),
    ];
    let merged = merge_player_scores(scores, &"alice".to_string(), &"bob".to_string()).unwrap();
    assert_eq!(merged, vec![ps("kills", "bob", Some(8), Some(1))]);
}

#[test]
fn lock_flag_kept_from_single_contributor() {
    let scores = vec![
        ps("deaths", "alice", Some(2), Some(1)),
        ps("wins", "bob", Some(4), Some(0)),
    ];
    let merged = merge_player_scores(scores, &"alice".to_string(), &"bob".to_string()).unwrap();
    assert_eq!(
        merged,
        vec![ps("deaths", "bob", Some(2), Some(1)), ps("wins", "bob", Some(4), Some(0))]
    );
}

#[test]
fn absent_scores_combine_as_documented() {
    let scores = vec![
        ps("a", "alice", Some(1), None),
        ps("b", "alice", None, None),
        ps("c", "alice", None, None),
        ps("a", "bob", None, None),
        ps("b", "bob", Some(2), None),
        ps("c", "bob", None, None),
    ];
    let merged = merge_player_scores(scores, &"alice".to_string(), &"bob".to_string()).unwrap();
    assert_eq!(
        merged,
        vec![
            ps("a", "bob", Some(1), None),
            ps("b", "bob", Some(2), None),
            ps("c", "bob", None, None),
        ]
    );
}

#[test]
fn score_sum_saturates_at_bounds() {
    assert_eq!(sat_add(i32::MAX, 1), i32::MAX);
    assert_eq!(sat_add(i32::MIN, -1), i32::MIN);
    assert_eq!(sat_add(i32::MAX, i32::MAX), i32::MAX);
    assert_eq!(sat_add(i32::MIN, i32::MIN), i32::MIN);
    assert_eq!(sat_add(5, 3), 8);
    assert_eq!(sat_add(-5, 3), -2);
    let scores = vec![
        ps("kills", "alice", Some(i32::MAX), None),
        ps("kills", "bob", Some(1), None),
    ];
    let merged = merge_player_scores(scores, &"alice".to_string(), &"bob".to_string()).unwrap();
    assert_eq!(merged, vec![ps("kills", "bob", Some(i32::MAX), None)]);
}

#[test]
fn duplicate_destination_entries_collapse_to_first() {
    let scores = vec![
        ps("kills", "alice", Some(5), None),
        ps("kills", "bob", Some(3), None),
        ps("kills", "bob", Some(9), None),
    ];
    let merged = merge_player_scores(scores, &"alice".to_string(), &"bob".to_string()).unwrap();
    assert_eq!(merged, vec![ps("kills", "bob", Some(8), None)]);
}

#[test]
fn duplicate_source_entries_each_contribute() {
    let scores = vec![
        ps("kills", "alice", Some(1), None),
        ps("kills", "alice", Some(2), None),
        ps("kills", "bob", Some(10), None),
    ];
    let merged = merge_player_scores(scores, &"alice".to_string(), &"bob".to_string()).unwrap();
    assert_eq!(
        merged,
        vec![ps("kills", "bob", Some(11), None), ps("kills", "bob", Some(12), None)]
    );
}

#[test]
fn merge_is_destructive_and_not_invertible() {
    let original = vec![ps("kills", "alice", Some(5), None), ps("kills", "bob", Some(3), None)];
    let merged =
        merge_player_scores(original.clone(), &"alice".to_string(), &"bob".to_string()).unwrap();
    // No entry for the source player survives the merge.
    assert!(merged.iter().all(|e| e.name != "alice"));
    // Merging back with swapped roles does not rebuild the unmerged state.
    let back = merge_player_scores(merged, &"bob".to_string(), &"alice".to_string()).unwrap();
    assert_eq!(back, vec![ps("kills", "alice", Some(8), None)]);
    assert_ne!(back, original);
}

#[test]
fn different_splits_of_same_total_merge_alike() {
    let first = vec![ps("kills", "alice", Some(5), None), ps("kills", "bob", Some(3), None)];
    let second = vec![ps("kills", "alice", Some(6), None), ps("kills", "bob", Some(2), None)];
    let merged_first =
        merge_player_scores(first, &"alice".to_string(), &"bob".to_string()).unwrap();
    let merged_second =
        merge_player_scores(second, &"alice".to_string(), &"bob".to_string()).unwrap();
    // Only the sum survives: the pre-merge split cannot be read back.
    assert_eq!(merged_first, merged_second);
    assert_eq!(merged_first, vec![ps("kills", "bob", Some(8), None)]);
}

#[test]
fn filters_select_and_exclude_by_name() {
    let scores = vec![
        ps("kills", "alice", Some(5), None),
        ps("kills", "bob", Some(3), None),
        ps("deaths", "alice", Some(2), None),
    ];
    let for_alice = scoreboard_for_player(scores.clone(), "alice".to_string());
    assert_eq!(
        for_alice,
        vec![ps("kills", "alice", Some(5), None), ps("deaths", "alice", Some(2), None)]
    );
    let without_alice = scoreboard_excluding_player(scores, "alice".to_string());
    assert_eq!(without_alice, vec![ps("kills", "bob", Some(3), None)]);
}

#[test]
fn process_scoreboard_passes_other_fields_through() {
    let root = ScoreboardRoot {
        data_version: 3465,
        data: ScoreboardData {
            display_slots: DisplaySlot { list: "kills".to_string() },
            objectives: vec![Objectives {
                criteria_name: Some("playerKillCount".to_string()),
                display_name: "Kills".to_string(),
                name: "kills".to_string(),
            }],
            player_scores: vec![
                ps("kills", "alice", Some(5), None),
                ps("kills", "bob", Some(3), None),
            ],
            teams: vec![Teams {
                display_name: "Red".to_string(),
                name: "red".to_string(),
                players: vec!["alice".to_string()],
                team_color: "red".to_string(),
            }],
        },
    };
    let out = process_scoreboard(root, &"alice".to_string(), &"bob".to_string()).unwrap();
    assert_eq!(out.data_version, 3465);
    assert_eq!(out.data.display_slots.list, "kills");
    assert_eq!(out.data.objectives.len(), 1);
    assert_eq!(out.data.objectives[0].name, "kills");
    // Team rosters still mention the merged-away player: a documented gap.
    assert_eq!(out.data.teams[0].players, vec!["alice".to_string()]);
    assert_eq!(out.data.player_scores, vec![ps("kills", "bob", Some(8), None)]);
}

#[test]
fn process_scoreboard_reports_missing_source() {
    let root = ScoreboardRoot {
        data_version: 1,
        data: ScoreboardData {
            display_slots: DisplaySlot { list: String::new() },
            objectives: Vec::new(),
            player_scores: vec![ps("kills", "bob", Some(3), None)],
            teams: Vec::new(),
        },
    };
    let r = process_scoreboard(root, &"ghost".to_string(), &"bob".to_string());
    assert!(matches!(r, Err(ScoreboardError::NameNotFound)));
}
