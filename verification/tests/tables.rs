use poker_arena::accounts::{
    can_lose, can_win, leaderboard, login_response, register_response, settle_loss, settle_win,
    stats_response, update_stats, DuelRecord, RankedRow, StatsResponse, UpdateStatsRequest, UserRow,
};
use poker_arena::friends::{
    accept_friend_request, friends_list, friends_of, list_query, send_friend_request,
    FriendChange, FriendInfo,
};
use poker_arena::ranges::{btn_choice, name_hand, preflop_ranges, utg_choice, RangeAction};
use poker_arena::store::needs_stats_row;
use poker_arena::text::parse_i32;
use poker_arena::wire::{range_object, reply_object, status_object};

#[test]
fn account_login_is_answered() {
    let granted = login_response(Some(UserRow {
        id: 7,
        username: "anna".to_string(),
        elo_train: 1100,
        elo_1v1: 1200,
        elo_1v7: 1300,
    }));
    assert!(granted.success);
    assert_eq!(granted.message, "OK");
    assert_eq!(granted.id, Some(7));
    assert_eq!(granted.username, Some("anna".to_string()));
    assert_eq!(granted.elo_train, Some(1100));
    assert_eq!(granted.elo_1v1, Some(1200));
    assert_eq!(granted.elo_1v7, Some(1300));
    let refused = login_response(None);
    assert!(!refused.success);
    assert_eq!(refused.message, "Błędne dane");
    assert!(refused.id.is_none() && refused.username.is_none());
    assert!(refused.elo_train.is_none() && refused.elo_1v1.is_none() && refused.elo_1v7.is_none());
}

#[test]
fn account_registration_is_answered() {
    let granted = register_response(Some(3), "jan".to_string());
    assert!(granted.success);
    assert_eq!(granted.id, Some(3));
    assert_eq!(granted.username, Some("jan".to_string()));
    assert_eq!(
        (granted.elo_train, granted.elo_1v1, granted.elo_1v7),
        (Some(1000), Some(1000), Some(1000))
    );
    let wide = register_response(Some((1 << 32) + 5), "ewa".to_string());
    assert_eq!(wide.id, Some(5));
    let refused = register_response(None, "jan".to_string());
    assert!(!refused.success);
    assert_eq!(refused.message, "Zajęte");
    assert!(refused.id.is_none() && refused.username.is_none());
}

#[test]
fn account_stats_default_to_fresh_ones() {
    let stored = StatsResponse {
        elo_train: 1,
        elo_1v1: 2,
        elo_1v7: 3,
        streak: 4,
        hands_played: 5,
    };
    assert_eq!(stats_response(Some(stored)), stored);
    let fresh = stats_response(None);
    assert_eq!((fresh.elo_train, fresh.elo_1v1, fresh.elo_1v7), (1000, 1000, 1000));
    assert_eq!((fresh.streak, fresh.hands_played), (0, 0));
    assert!(needs_stats_row(0));
    assert!(!needs_stats_row(1));
}

#[test]
fn account_stats_go_to_the_column_of_the_mode() {
    for (mode, column) in [
        ("1v1", "elo_1v1"),
        ("1v7", "elo_1v7"),
        ("train", "elo_train"),
        ("", "elo_train"),
    ] {
        let own = update_stats(&UpdateStatsRequest {
            user_id: Some(9),
            mode: mode.to_string(),
            elo: 1500,
            streak: 2,
            hands_played: 30,
        });
        assert_eq!(
            own.sql,
            format!(
                "UPDATE users SET {} = ?1, streak = ?2, hands_played = ?3 WHERE id = ?4",
                column
            )
        );
        assert_eq!(own.numbers, vec![1500, 2, 30, 9]);
        let shared = update_stats(&UpdateStatsRequest {
            user_id: None,
            mode: mode.to_string(),
            elo: 1500,
            streak: 2,
            hands_played: 30,
        });
        assert_eq!(
            shared.sql,
            format!(
                "UPDATE stats SET {} = ?1, streak = ?2, hands_played = ?3 WHERE id = 1",
                column
            )
        );
        assert_eq!(shared.numbers, vec![1500, 2, 30]);
    }
}

#[test]
fn account_ratings_move_by_the_stake() {
    let record = DuelRecord { elo: 1000, streak: 3, hands_played: 10 };
    assert_eq!(
        settle_win(record),
        DuelRecord { elo: 1025, streak: 4, hands_played: 11 }
    );
    assert_eq!(
        settle_loss(record),
        DuelRecord { elo: 975, streak: 0, hands_played: 11 }
    );
    let poor = DuelRecord { elo: 24, streak: 1, hands_played: 0 };
    assert_eq!(settle_loss(poor).elo, 0);
    assert!(can_win(&record) && can_lose(&record));
    assert!(!can_win(&DuelRecord { elo: i64::MAX, streak: 0, hands_played: 0 }));
    assert!(can_lose(&DuelRecord { elo: i64::MAX, streak: 0, hands_played: 0 }));
    assert!(!can_lose(&DuelRecord { elo: 0, streak: 0, hands_played: i64::MAX }));
}

#[test]
fn account_ranking_keeps_the_place_of_unread_rows() {
    let row = |name: &str, elo: i32| {
        Some(RankedRow { username: name.to_string(), elo })
    };
    let entries = leaderboard(&vec![row("anna", 1300), None, row("jan", 1200)]);
    let lines: Vec<(usize, &str, i32)> = entries
        .iter()
        .map(|entry| (entry.rank, entry.username.as_str(), entry.elo))
        .collect();
    assert_eq!(lines, vec![(1, "anna", 1300), (3, "jan", 1200)]);
    assert!(leaderboard(&vec![]).is_empty());
}

#[test]
fn friend_requests_are_decided() {
    let unknown = send_friend_request(1, None);
    assert!(!unknown.success && unknown.changes.is_empty());
    assert_eq!(unknown.message, "Nie znaleziono gracza");
    let own = send_friend_request(1, Some(1));
    assert!(!own.success && own.changes.is_empty());
    assert_eq!(own.message, "Nie możesz dodać samego siebie");
    let sent = send_friend_request(1, Some(2));
    assert!(sent.success);
    assert_eq!(sent.message, "Wysłano zaproszenie!");
    assert_eq!(sent.changes, vec![FriendChange::Invite { from: 1, to: 2 }]);
}

#[test]
fn friend_acceptance_goes_both_ways() {
    let accepted = accept_friend_request(2, 1);
    assert!(accepted.success);
    assert_eq!(accepted.message, "Zaakceptowano!");
    assert_eq!(
        accepted.changes,
        vec![
            FriendChange::Accept { from: 1, to: 2 },
            FriendChange::Befriend { from: 2, to: 1 }
        ]
    );
}

#[test]
fn friend_changes_are_statements() {
    let invite = FriendChange::Invite { from: 1, to: 2 }.statement();
    assert_eq!(
        invite.sql,
        "INSERT OR IGNORE INTO friends (user_id, friend_id, status) VALUES (?1, ?2, 'pending')"
    );
    assert_eq!(invite.numbers, vec![1, 2]);
    let accept = FriendChange::Accept { from: 3, to: 4 }.statement();
    assert_eq!(
        accept.sql,
        "UPDATE friends SET status = 'accepted' WHERE user_id = ?1 AND friend_id = ?2"
    );
    assert_eq!(accept.numbers, vec![3, 4]);
    let befriend = FriendChange::Befriend { from: 5, to: 6 }.statement();
    assert_eq!(
        befriend.sql,
        "INSERT OR IGNORE INTO friends (user_id, friend_id, status) VALUES (?1, ?2, 'accepted')"
    );
    assert_eq!(befriend.numbers, vec![5, 6]);
}

/// The statements do to a real table what the changes stand for.
#[test]
fn friend_statements_work_on_a_table() {
    let conn = rusqlite::Connection::open_in_memory().unwrap();
    conn.execute(
        "CREATE TABLE friends (user_id INTEGER NOT NULL, friend_id INTEGER NOT NULL, \
         status TEXT NOT NULL DEFAULT 'pending', UNIQUE(user_id, friend_id))",
        [],
    )
    .unwrap();
    let run = |changes: &Vec<FriendChange>| {
        for change in changes {
            let statement = change.statement();
            conn.execute(statement.sql, rusqlite::params_from_iter(statement.numbers))
                .unwrap();
        }
    };
    let status = |from: i32, to: i32| {
        conn.query_row(
            "SELECT status FROM friends WHERE user_id = ?1 AND friend_id = ?2",
            [from, to],
            |row| row.get::<_, String>(0),
        )
        .ok()
    };
    run(&send_friend_request(1, Some(2)).changes);
    run(&send_friend_request(1, Some(2)).changes);
    assert_eq!(status(1, 2), Some("pending".to_string()));
    assert_eq!(status(2, 1), None);
    run(&accept_friend_request(2, 1).changes);
    assert_eq!(status(1, 2), Some("accepted".to_string()));
    assert_eq!(status(2, 1), Some("accepted".to_string()));
    run(&send_friend_request(1, Some(2)).changes);
    assert_eq!(status(1, 2), Some("accepted".to_string()));
    // Crossed invitations: the acceptance does not touch one's own.
    run(&send_friend_request(3, Some(4)).changes);
    run(&send_friend_request(4, Some(3)).changes);
    run(&accept_friend_request(4, 3).changes);
    assert_eq!(status(3, 4), Some("accepted".to_string()));
    assert_eq!(status(4, 3), Some("pending".to_string()));
}

/// Invitations are shown to the invited, friends to each other.
#[test]
fn friend_query_lists_friends_and_invitations() {
    let conn = rusqlite::Connection::open_in_memory().unwrap();
    conn.execute(
        "CREATE TABLE users (id INTEGER PRIMARY KEY, username TEXT, elo_1v1 INTEGER)",
        [],
    )
    .unwrap();
    conn.execute(
        "CREATE TABLE friends (user_id INTEGER NOT NULL, friend_id INTEGER NOT NULL, \
         status TEXT NOT NULL DEFAULT 'pending', UNIQUE(user_id, friend_id))",
        [],
    )
    .unwrap();
    for id in 1..=3 {
        conn.execute(
            "INSERT INTO users (id, username, elo_1v1) VALUES (?1, 'u', 1000)",
            [id],
        )
        .unwrap();
    }
    let run = |changes: &Vec<FriendChange>| {
        for change in changes {
            let statement = change.statement();
            conn.execute(statement.sql, rusqlite::params_from_iter(statement.numbers))
                .unwrap();
        }
    };
    let shown = |user_id: i32| {
        let statement = list_query(user_id);
        let mut query = conn.prepare(statement.sql).unwrap();
        let rows: Vec<(i32, String)> = query
            .query_map(rusqlite::params_from_iter(statement.numbers), |row| {
                Ok((row.get(0)?, row.get(3)?))
            })
            .unwrap()
            .map(|row| row.unwrap())
            .collect();
        rows
    };
    run(&send_friend_request(1, Some(2)).changes);
    assert_eq!(shown(1), vec![]);
    assert_eq!(shown(2), vec![(1, "pending".to_string())]);
    run(&accept_friend_request(2, 1).changes);
    assert_eq!(shown(1), vec![(2, "accepted".to_string())]);
    assert_eq!(shown(2), vec![(1, "accepted".to_string())]);
    assert_eq!(shown(3), vec![]);
}

#[test]
fn friend_list_holds_the_rows_that_were_read() {
    let row = |id: i32| {
        Some(FriendInfo {
            id,
            username: format!("u{}", id),
            elo_1v1: 1000 + id,
            status: "accepted".to_string(),
        })
    };
    let friends = friends_list(&vec![row(1), None, row(3)]);
    let ids: Vec<i32> = friends.iter().map(|friend| friend.id).collect();
    assert_eq!(ids, vec![1, 3]);
    assert_eq!(friends[1].username, "u3");
    assert_eq!(friends[1].elo_1v1, 1003);
    assert_eq!(friends[1].status, "accepted");
}

#[test]
fn friend_list_is_of_the_user_asked_for() {
    assert_eq!(friends_of(&Some("12".to_string())), 12);
    assert_eq!(friends_of(&Some("-3".to_string())), -3);
    assert_eq!(friends_of(&Some("x".to_string())), 0);
    assert_eq!(friends_of(&None), 0);
}

#[test]
fn text_numbers_are_parsed_as_std_does() {
    for text in [
        "", "-", "+", "0", "-0", "+0", "7", "+7", "-7", "007", "12a", "a12", " 1", "1 ", "1_0",
        "--1", "+-1", "2147483647", "2147483648", "-2147483648", "-2147483649", "99999999999",
        "000000000000000000001", "٣", "1٣", "99999999999999999999999999999999999",
    ] {
        assert_eq!(parse_i32(text), text.parse::<i32>().ok(), "{}", text);
    }
}

#[test]
fn range_names_and_cells() {
    assert_eq!(name_hand(0, 0), "AA");
    assert_eq!(name_hand(0, 1), "AKs");
    assert_eq!(name_hand(1, 0), "AKo");
    assert_eq!(name_hand(12, 11), "32o");
    let ranges = preflop_ranges();
    assert_eq!(ranges.utg.len(), 169);
    assert_eq!(ranges.btn.len(), 169);
    let mut names: Vec<&str> = ranges.utg.iter().map(|cell| cell.hand.as_str()).collect();
    names.sort();
    names.dedup();
    assert_eq!(names.len(), 169);
}

#[test]
fn range_of_the_first_to_act() {
    let ranges = preflop_ranges();
    let mut raised: Vec<&str> = ranges
        .utg
        .iter()
        .filter(|cell| cell.action == RangeAction::Raise)
        .map(|cell| cell.hand.as_str())
        .collect();
    raised.sort();
    let mut wanted = vec![
        "AA", "KK", "QQ", "JJ", "TT", "99", "88", "AKs", "AQs", "AJs", "KQs", "AKo", "AQo",
    ];
    wanted.sort();
    assert_eq!(raised, wanted);
    assert_eq!(utg_choice(7, 7), RangeAction::Fold);
}

#[test]
fn range_of_the_button() {
    let ranges = preflop_ranges();
    let action = |name: &str| {
        ranges
            .btn
            .iter()
            .find(|cell| cell.hand == name)
            .map(|cell| cell.action)
    };
    for name in ["22", "A2s", "A9o", "A2o", "ATo", "KJo", "QJo", "JTo", "76s", "75s", "64s", "KQs"] {
        assert_eq!(action(name), Some(RangeAction::Raise), "{}", name);
    }
    for name in ["K9o", "54s", "53s", "74s", "72o", "K9s"] {
        assert_eq!(action(name), Some(RangeAction::Fold), "{}", name);
    }
    for rank in 1..13 {
        assert_eq!(btn_choice(0, rank), RangeAction::Raise);
        assert_eq!(btn_choice(rank, 0), RangeAction::Raise);
    }
    for row in 0..13 {
        for column in 0..13 {
            assert!(btn_choice(row, column) != RangeAction::Call);
            if utg_choice(row, column) == RangeAction::Raise {
                assert_eq!(btn_choice(row, column), RangeAction::Raise);
            }
        }
    }
}

#[test]
fn range_objects_say_what_to_do() {
    let ranges = preflop_ranges();
    let object = range_object(&ranges.utg);
    assert_eq!(object.len(), 169);
    assert_eq!(object["AKs"], "R");
    assert_eq!(object["72o"], "F");
    assert_eq!(RangeAction::Call.code(), "C");
}

#[test]
fn reply_objects_hold_their_fields() {
    let object = reply_object(true, "Zaakceptowano!");
    assert_eq!(object.len(), 2);
    assert_eq!(object["success"], true);
    assert_eq!(object["message"], "Zaakceptowano!");
    let object = status_object();
    assert_eq!(object.len(), 1);
    assert_eq!(object["status"], "ok");
}
