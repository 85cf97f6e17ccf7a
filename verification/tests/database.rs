use poker_arena::accounts::{
    can_lose, can_win, leaderboard, login_query, login_response, ranking_query, record_query,
    register_response, register_statement, settle_loss, settle_statement, settle_win, stats_query,
    stats_response, update_stats, DuelRecord, LeaderboardEntry, RankedRow, StatsResponse,
    UpdateStatsRequest, UserResponse, UserRow,
};
use poker_arena::friends::{
    accept_friend_request, find_query, friends_list, list_query, send_friend_request, FriendDecision,
    FriendInfo,
};
use poker_arena::store::{count_query, needs_stats_row, schema, seed};
use rusqlite::{params_from_iter, Connection};

/// Prepares the tables of a database.
fn prepare(conn: &Connection) {
    for statement in schema() {
        conn.execute(statement.sql, params_from_iter(statement.numbers))
            .unwrap();
    }
    for statement in seed(count(conn)) {
        conn.execute(statement.sql, params_from_iter(statement.numbers))
            .unwrap();
    }
}

fn prepared() -> Connection {
    let conn = Connection::open_in_memory().unwrap();
    prepare(&conn);
    conn
}

fn count(conn: &Connection) -> i32 {
    let query = count_query();
    conn.query_row(query.sql, params_from_iter(query.numbers), |row| row.get(0))
        .unwrap()
}

fn register(conn: &Connection, username: &str, password: &str) -> UserResponse {
    let statement = register_statement(username, password);
    let stored = conn
        .execute(statement.sql, params_from_iter(statement.texts))
        .ok()
        .map(|_| conn.last_insert_rowid());
    register_response(stored, username.to_string())
}

fn login(conn: &Connection, username: &str, password: &str) -> UserResponse {
    let query = login_query(username, password);
    let found = conn
        .query_row(query.sql, params_from_iter(query.texts), |row| {
            Ok(UserRow {
                id: row.get(0)?,
                username: row.get(1)?,
                elo_train: row.get(2)?,
                elo_1v1: row.get(3)?,
                elo_1v7: row.get(4)?,
            })
        })
        .ok();
    login_response(found)
}

fn store(conn: &Connection, user_id: Option<i32>, mode: &str, elo: i32, streak: i32, hands: i32) {
    let statement = update_stats(&UpdateStatsRequest {
        user_id,
        mode: mode.to_string(),
        elo,
        streak,
        hands_played: hands,
    });
    conn.execute(statement.sql, params_from_iter(statement.numbers))
        .unwrap();
}

fn shared(conn: &Connection) -> [i32; 5] {
    let query = stats_query();
    let stored = conn
        .query_row(query.sql, params_from_iter(query.numbers), |row| {
            Ok(StatsResponse {
                elo_train: row.get(0)?,
                elo_1v1: row.get(1)?,
                elo_1v7: row.get(2)?,
                streak: row.get(3)?,
                hands_played: row.get(4)?,
            })
        })
        .ok();
    let stats = stats_response(stored);
    [
        stats.elo_train,
        stats.elo_1v1,
        stats.elo_1v7,
        stats.streak,
        stats.hands_played,
    ]
}

fn best(conn: &Connection) -> Vec<LeaderboardEntry> {
    let query = ranking_query();
    let mut stmt = conn.prepare(query.sql).unwrap();
    let rows: Vec<Option<RankedRow>> = stmt
        .query_map(params_from_iter(query.numbers), |row| {
            Ok(RankedRow {
                username: row.get(0)?,
                elo: row.get(1)?,
            })
        })
        .unwrap()
        .map(|row| row.ok())
        .collect();
    leaderboard(&rows)
}

fn record(conn: &Connection, id: i32) -> Option<DuelRecord> {
    let query = record_query(id);
    conn.query_row(query.sql, params_from_iter(query.numbers), |row| {
        Ok(DuelRecord {
            elo: row.get(0)?,
            streak: row.get(1)?,
            hands_played: row.get(2)?,
        })
    })
    .ok()
}

fn settle(conn: &Connection, winner_id: i32, loser_id: i32) {
    if let Some(before) = record(conn, winner_id) {
        assert!(can_win(&before));
        let statement = settle_statement(winner_id, settle_win(before));
        conn.execute(statement.sql, params_from_iter(statement.numbers))
            .unwrap();
    }
    if let Some(before) = record(conn, loser_id) {
        assert!(can_lose(&before));
        let statement = settle_statement(loser_id, settle_loss(before));
        conn.execute(statement.sql, params_from_iter(statement.numbers))
            .unwrap();
    }
}

/// All columns of the accounts, by number.
fn accounts(conn: &Connection) -> Vec<(String, String, [i64; 6])> {
    let mut stmt = conn
        .prepare(
            "SELECT username, password, id, elo_train, elo_1v1, elo_1v7, streak, hands_played \
             FROM users ORDER BY id",
        )
        .unwrap();
    let rows = stmt
        .query_map([], |row| {
            Ok((
                row.get(0)?,
                row.get(1)?,
                [
                    row.get(2)?,
                    row.get(3)?,
                    row.get(4)?,
                    row.get(5)?,
                    row.get(6)?,
                    row.get(7)?,
                ],
            ))
        })
        .unwrap();
    rows.map(|row| row.unwrap()).collect()
}

fn run(conn: &Connection, decision: FriendDecision) {
    for change in decision.changes {
        let statement = change.statement();
        conn.execute(statement.sql, params_from_iter(statement.numbers))
            .unwrap();
    }
}

/// Whom a user is shown, sorted by number and status.
fn shown(conn: &Connection, user_id: i32) -> Vec<(i32, String, i32, String)> {
    let query = list_query(user_id);
    let mut stmt = conn.prepare(query.sql).unwrap();
    let rows: Vec<Option<FriendInfo>> = stmt
        .query_map(params_from_iter(query.numbers), |row| {
            Ok(FriendInfo {
                id: row.get(0)?,
                username: row.get(1)?,
                elo_1v1: row.get(2)?,
                status: row.get(3)?,
            })
        })
        .unwrap()
        .map(|row| row.ok())
        .collect();
    let mut friends: Vec<(i32, String, i32, String)> = friends_list(&rows)
        .into_iter()
        .map(|friend| (friend.id, friend.username, friend.elo_1v1, friend.status))
        .collect();
    friends.sort();
    friends
}

#[test]
fn database_login_finds_what_was_registered() {
    let conn = prepared();
    let anna = register(&conn, "anna", "secret");
    assert!(anna.success);
    assert_eq!(anna.id, Some(1));
    let found = login(&conn, "anna", "secret");
    assert!(found.success);
    assert_eq!(found.id, anna.id);
    assert_eq!(found.username, Some("anna".to_string()));
    assert_eq!(
        (found.elo_train, found.elo_1v1, found.elo_1v7),
        (Some(1000), Some(1000), Some(1000))
    );
    let refused = login(&conn, "anna", "guess");
    assert!(!refused.success && refused.id.is_none());
    assert!(!login(&conn, "jan", "secret").success);
}

#[test]
fn database_finds_users_by_name() {
    let conn = prepared();
    register(&conn, "anna", "a");
    register(&conn, "jan", "b");
    let find = |name: &str| {
        let query = find_query(name);
        conn.query_row(query.sql, params_from_iter(query.texts), |row| {
            row.get::<_, i32>(0)
        })
        .ok()
    };
    assert_eq!(find("jan"), Some(2));
    assert_eq!(find("ewa"), None);
}

#[test]
fn database_registers_a_name_once() {
    let conn = prepared();
    assert!(register(&conn, "anna", "secret").success);
    let again = register(&conn, "anna", "other");
    assert!(!again.success);
    assert_eq!(again.message, "Zajęte");
    assert!(login(&conn, "anna", "secret").success);
    assert!(!login(&conn, "anna", "other").success);
    assert_eq!(register(&conn, "jan", "other").id, Some(2));
}

#[test]
fn database_login_needs_a_number_of_32_bits() {
    let conn = prepared();
    conn.execute(
        "INSERT INTO users (id, username, password) VALUES (2147483647, 'anna', 'a')",
        [],
    )
    .unwrap();
    let wide = register(&conn, "jan", "b");
    assert_eq!(wide.id, Some(i32::MIN));
    assert!(login(&conn, "anna", "a").success);
    assert!(!login(&conn, "jan", "b").success);
}

#[test]
fn database_gives_back_what_was_stored() {
    let conn = prepared();
    assert_eq!(shared(&conn), [1000, 1000, 1000, 0, 0]);
    store(&conn, None, "1v1", 1111, 1, 2);
    assert_eq!(shared(&conn), [1000, 1111, 1000, 1, 2]);
    store(&conn, None, "1v7", 1222, 3, 4);
    assert_eq!(shared(&conn), [1000, 1111, 1222, 3, 4]);
    store(&conn, None, "train", 1333, 5, 6);
    assert_eq!(shared(&conn), [1333, 1111, 1222, 5, 6]);
    conn.execute("DELETE FROM stats", []).unwrap();
    store(&conn, None, "1v1", 1444, 7, 8);
    assert_eq!(shared(&conn), [1000, 1000, 1000, 0, 0]);
}

#[test]
fn database_keeps_users_and_shared_statistics_apart() {
    let conn = prepared();
    register(&conn, "anna", "a");
    register(&conn, "jan", "b");
    store(&conn, Some(1), "1v1", 1500, 2, 3);
    assert_eq!(shared(&conn), [1000, 1000, 1000, 0, 0]);
    assert_eq!(login(&conn, "anna", "a").elo_1v1, Some(1500));
    assert_eq!(login(&conn, "anna", "a").elo_train, Some(1000));
    assert_eq!(login(&conn, "jan", "b").elo_1v1, Some(1000));
    store(&conn, None, "1v1", 1600, 4, 5);
    assert_eq!(login(&conn, "anna", "a").elo_1v1, Some(1500));
}

#[test]
fn database_is_prepared_once() {
    let conn = prepared();
    assert_eq!(count(&conn), 1);
    assert!(needs_stats_row(0) && !needs_stats_row(1));
    register(&conn, "anna", "a");
    store(&conn, None, "1v1", 1111, 1, 2);
    prepare(&conn);
    assert_eq!(count(&conn), 1);
    assert_eq!(shared(&conn), [1000, 1111, 1000, 1, 2]);
    assert!(login(&conn, "anna", "a").success);
    assert!(seed(3).is_empty());
    assert_eq!(schema().len(), 3);
}

#[test]
fn database_ranks_the_ten_best() {
    let conn = prepared();
    for i in 1..=12 {
        register(&conn, &format!("u{}", i), "p");
        store(&conn, Some(i), "1v1", 1000 + i, 0, 0);
    }
    let entries = best(&conn);
    let elos: Vec<i32> = entries.iter().map(|entry| entry.elo).collect();
    assert_eq!(elos, (1003..=1012).rev().collect::<Vec<i32>>());
    assert_eq!(entries[0].rank, 1);
    assert_eq!(entries[0].username, "u12");
    assert_eq!(entries[9].rank, 10);
}

#[test]
fn database_ranking_leaves_out_nobody_above_the_last() {
    let conn = prepared();
    assert!(best(&conn).is_empty());
    for i in 1..=3 {
        register(&conn, &format!("u{}", i), "p");
        store(&conn, Some(i), "1v1", 1000 - i, 0, 0);
    }
    let names: Vec<String> = best(&conn).into_iter().map(|entry| entry.username).collect();
    assert_eq!(names, vec!["u1", "u2", "u3"]);
    for i in 4..=12 {
        register(&conn, &format!("u{}", i), "p");
    }
    let entries = best(&conn);
    assert_eq!(entries.len(), 10);
    assert!(entries[..9].iter().all(|entry| entry.elo == 1000));
    assert_eq!((entries[9].username.as_str(), entries[9].elo), ("u1", 999));
    conn.execute("UPDATE users SET elo_1v1 = 2147483648 WHERE id = 5", [])
        .unwrap();
    let entries = best(&conn);
    assert_eq!(entries.len(), 9);
    assert_eq!((entries[0].rank, entries[8].rank), (2, 10));
    assert!(entries.iter().all(|entry| entry.username != "u5"));
}

#[test]
fn database_settles_a_duel() {
    let conn = prepared();
    for name in ["anna", "jan", "ewa"] {
        register(&conn, name, "p");
    }
    store(&conn, Some(2), "1v1", 1100, 4, 9);
    store(&conn, Some(2), "train", 1200, 4, 9);
    let before = accounts(&conn);
    settle(&conn, 1, 2);
    let after = accounts(&conn);
    assert_eq!(after[0].2, [1, 1000, 1025, 1000, 1, 1]);
    assert_eq!(after[1].2, [2, 1200, 1075, 1000, 0, 10]);
    assert_eq!(after[2], before[2]);
    for (old, new) in before.iter().zip(after.iter()) {
        assert_eq!((&old.0, &old.1), (&new.0, &new.1));
    }
    let sum = |rows: &Vec<(String, String, [i64; 6])>| rows.iter().map(|row| row.2[2]).sum::<i64>();
    assert_eq!(sum(&before), sum(&after));
}

#[test]
fn database_settles_a_duel_below_the_stake() {
    let conn = prepared();
    register(&conn, "anna", "p");
    register(&conn, "jan", "p");
    store(&conn, Some(2), "1v1", 24, 3, 3);
    settle(&conn, 1, 2);
    assert_eq!(accounts(&conn)[0].2, [1, 1000, 1025, 1000, 1, 1]);
    assert_eq!(accounts(&conn)[1].2, [2, 1000, 0, 1000, 0, 4]);
}

#[test]
fn database_settles_a_duel_without_an_account() {
    let conn = prepared();
    register(&conn, "anna", "p");
    let before = accounts(&conn);
    settle(&conn, 7, 8);
    assert_eq!(accounts(&conn), before);
    settle(&conn, 7, 1);
    assert_eq!(accounts(&conn)[0].2, [1, 1000, 975, 1000, 0, 1]);
    settle(&conn, 1, 1);
    assert_eq!(accounts(&conn)[0].2, [1, 1000, 975, 1000, 0, 3]);
}

#[test]
fn database_duel_statements_bind_their_numbers() {
    let query = record_query(7);
    assert_eq!(
        query.sql,
        "SELECT elo_1v1, streak, hands_played FROM users WHERE id = ?1"
    );
    assert_eq!(query.numbers, vec![7]);
    let statement = settle_statement(
        7,
        DuelRecord {
            elo: 5_000_000_000,
            streak: 2,
            hands_played: 3,
        },
    );
    assert_eq!(
        statement.sql,
        "UPDATE users SET elo_1v1 = ?1, streak = ?2, hands_played = ?3 WHERE id = ?4"
    );
    assert_eq!(statement.numbers, vec![5_000_000_000, 2, 3, 7]);
}

#[test]
fn database_numbers_accounts_upwards() {
    let conn = prepared();
    assert_eq!(register(&conn, "anna", "p").id, Some(1));
    conn.execute(
        "INSERT INTO users (id, username, password) VALUES (40, 'jan', 'p')",
        [],
    )
    .unwrap();
    assert_eq!(register(&conn, "ewa", "p").id, Some(41));
    conn.execute("DELETE FROM users WHERE id = 41", []).unwrap();
    assert_eq!(register(&conn, "ola", "p").id, Some(42));
    conn.execute(
        "INSERT INTO users (id, username, password) VALUES (9223372036854775807, 'max', 'p')",
        [],
    )
    .unwrap();
    let before = accounts(&conn);
    assert_eq!(register(&conn, "late", "p").message, "Zajęte");
    assert_eq!(accounts(&conn), before);
}

#[test]
fn database_lists_friends_and_invitations() {
    let conn = prepared();
    for name in ["anna", "jan", "ewa", "ola"] {
        register(&conn, name, "p");
    }
    store(&conn, Some(2), "1v1", 1100, 0, 0);
    run(&conn, send_friend_request(2, Some(1)));
    run(&conn, send_friend_request(2, Some(1)));
    run(&conn, send_friend_request(3, Some(1)));
    run(&conn, send_friend_request(1, Some(4)));
    run(&conn, send_friend_request(9, Some(1)));
    let line = |id: i32, name: &str, elo: i32, status: &str| {
        (id, name.to_string(), elo, status.to_string())
    };
    assert_eq!(
        shown(&conn, 1),
        vec![line(2, "jan", 1100, "pending"), line(3, "ewa", 1000, "pending")]
    );
    assert!(shown(&conn, 2).is_empty());
    run(&conn, accept_friend_request(1, 2));
    assert_eq!(
        shown(&conn, 1),
        vec![line(2, "jan", 1100, "accepted"), line(3, "ewa", 1000, "pending")]
    );
    assert_eq!(shown(&conn, 2), vec![line(1, "anna", 1000, "accepted")]);
    conn.execute("UPDATE users SET elo_1v1 = 2147483648 WHERE id = 3", [])
        .unwrap();
    assert_eq!(shown(&conn, 1), vec![line(2, "jan", 1100, "accepted")]);
}

/// A crossed invitation that is accepted shows one user with both statuses.
#[test]
fn database_lists_one_user_with_two_statuses() {
    let conn = prepared();
    register(&conn, "anna", "p");
    register(&conn, "jan", "p");
    run(&conn, send_friend_request(1, Some(2)));
    run(&conn, send_friend_request(2, Some(1)));
    run(&conn, accept_friend_request(2, 1));
    assert_eq!(
        shown(&conn, 1),
        vec![
            (2, "jan".to_string(), 1000, "accepted".to_string()),
            (2, "jan".to_string(), 1000, "pending".to_string())
        ]
    );
    assert!(shown(&conn, 2).is_empty());
}
