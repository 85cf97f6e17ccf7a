//! Accounts: what a login or a registration is answered, how statistics are
//! stored, and how duels move ratings.

use vstd::prelude::*;
use crate::store::{Statement, TextStatement, WideStatement};

verus! {

/// The rating that every account starts with.
pub const START_ELO: i32 = 1000;

/// The rating points that a duel is about.
pub const DUEL_STAKE: i64 = 25;

/// The account with a name and a password.
pub const LOGIN_SQL: &'static str = "SELECT id, username, elo_train, elo_1v1, elo_1v7 FROM users WHERE username = ?1 AND password = ?2";

/// A new account with a name and a password.
pub const REGISTER_SQL: &'static str = "INSERT INTO users (username, password) VALUES (?1, ?2)";

/// The shared statistics.
pub const STATS_SQL: &'static str = "SELECT elo_train, elo_1v1, elo_1v7, streak, hands_played FROM stats WHERE id = 1";

/// The ten best players of duels, the best one first.
pub const RANKING_SQL: &'static str = "SELECT username, elo_1v1 FROM users ORDER BY elo_1v1 DESC LIMIT 10";

/// What a duel changes of an account, as it is stored.
pub const RECORD_SQL: &'static str = "SELECT elo_1v1, streak, hands_played FROM users WHERE id = ?1";

/// Stores what a duel has changed of an account.
pub const SETTLE_SQL: &'static str = "UPDATE users SET elo_1v1 = ?1, streak = ?2, hands_played = ?3 WHERE id = ?4";

/// An account as it is read.
#[derive(Debug)]
pub struct UserRow {
    pub id: i32,
    pub username: String,
    pub elo_train: i32,
    pub elo_1v1: i32,
    pub elo_1v7: i32,
}

/// The answer to a login or a registration.
#[derive(Debug)]
pub struct UserResponse {
    pub success: bool,
    pub message: String,
    pub id: Option<i32>,
    pub username: Option<String>,
    pub elo_train: Option<i32>,
    pub elo_1v1: Option<i32>,
    pub elo_1v7: Option<i32>,
}

/// Statistics of a player.
#[derive(Clone, Copy, Debug, PartialEq, Eq, Structural)]
pub struct StatsResponse {
    pub elo_train: i32,
    pub elo_1v1: i32,
    pub elo_1v7: i32,
    pub streak: i32,
    pub hands_played: i32,
}

/// Statistics to be stored: those of a user, or the shared ones.
#[derive(Debug)]
pub struct UpdateStatsRequest {
    pub user_id: Option<i32>,
    pub mode: String,
    pub elo: i32,
    pub streak: i32,
    pub hands_played: i32,
}

/// Whether an answer grants access to an account.
pub open spec fn grants(
    response: UserResponse,
    id: i32,
    username: Seq<char>,
    elo_train: i32,
    elo_1v1: i32,
    elo_1v7: i32,
) -> bool {
    &&& response.success
    &&& response.message@ == "OK"@
    &&& response.id == Some(id)
    &&& response.username matches Some(name)
    &&& name@ == username
    &&& response.elo_train == Some(elo_train)
    &&& response.elo_1v1 == Some(elo_1v1)
    &&& response.elo_1v7 == Some(elo_1v7)
}

/// Whether an answer refuses, for a reason, and gives nothing else away.
pub open spec fn refuses(response: UserResponse, reason: Seq<char>) -> bool {
    &&& !response.success
    &&& response.message@ == reason
    &&& response.id is None
    &&& response.username is None
    &&& response.elo_train is None
    &&& response.elo_1v1 is None
    &&& response.elo_1v7 is None
}

fn refuse(reason: &str) -> (response: UserResponse)
    ensures
        refuses(response, reason@),
{
    UserResponse {
        success: false,
        message: reason.to_string(),
        id: None,
        username: None,
        elo_train: None,
        elo_1v1: None,
        elo_1v7: None,
    }
}

/// Whether a response answers a login that found an account, or none.
pub open spec fn login_answer(response: UserResponse, found: Option<UserRow>) -> bool {
    match found {
        Some(row) => grants(
            response,
            row.id,
            row.username@,
            row.elo_train,
            row.elo_1v1,
            row.elo_1v7,
        ),
        None => refuses(response, "Błędne dane"@),
    }
}

/// Whether a response answers a registration that stored a row, or none. The
/// id is the low half of the row's number.
pub open spec fn register_answer(
    response: UserResponse,
    stored: Option<i64>,
    username: Seq<char>,
) -> bool {
    match stored {
        Some(rowid) => grants(
            response,
            rowid as i32,
            username,
            START_ELO,
            START_ELO,
            START_ELO,
        ),
        None => refuses(response, "Zajęte"@),
    }
}

/// The query of a login: both the name and the password have to be those of
/// the account.
pub fn login_query(username: &str, password: &str) -> (statement: TextStatement)
    ensures
        statement.sql@ == LOGIN_SQL@,
        statement.sql@ == "SELECT id, username, elo_train, elo_1v1, elo_1v7 FROM users WHERE username = ?1 AND password = ?2"@,
        statement.bound() == seq![username@, password@],
{
    TextStatement::pair(LOGIN_SQL, username, password)
}

/// The statement of a registration.
pub fn register_statement(username: &str, password: &str) -> (statement: TextStatement)
    ensures
        statement.sql@ == REGISTER_SQL@,
        statement.sql@ == "INSERT INTO users (username, password) VALUES (?1, ?2)"@,
        statement.bound() == seq![username@, password@],
{
    TextStatement::pair(REGISTER_SQL, username, password)
}

/// The query of the shared statistics.
pub fn stats_query() -> (statement: Statement)
    ensures
        statement.sql@ == STATS_SQL@,
        statement.sql@ == "SELECT elo_train, elo_1v1, elo_1v7, streak, hands_played FROM stats WHERE id = 1"@,
        statement.numbers@ == Seq::<i32>::empty(),
{
    Statement::plain(STATS_SQL)
}

/// The query of the ranking: by falling rating in duels, at most ten.
pub fn ranking_query() -> (statement: Statement)
    ensures
        statement.sql@ == RANKING_SQL@,
        statement.sql@ == "SELECT username, elo_1v1 FROM users ORDER BY elo_1v1 DESC LIMIT 10"@,
        statement.numbers@ == Seq::<i32>::empty(),
{
    Statement::plain(RANKING_SQL)
}

/// The answer to a login, where `found` is the account with that name and
/// password.
pub fn login_response(found: Option<UserRow>) -> (response: UserResponse)
    ensures
        login_answer(response, found),
{
    match found {
        Some(row) => UserResponse {
            success: true,
            message: "OK".to_string(),
            id: Some(row.id),
            username: Some(row.username),
            elo_train: Some(row.elo_train),
            elo_1v1: Some(row.elo_1v1),
            elo_1v7: Some(row.elo_1v7),
        },
        None => refuse("Błędne dane"),
    }
}

/// The answer to a registration, where `stored` is the number of the new row,
/// and there is none where the name is taken.
pub fn register_response(stored: Option<i64>, username: String) -> (response: UserResponse)
    ensures
        register_answer(response, stored, username@),
{
    match stored {
        Some(rowid) => UserResponse {
            success: true,
            message: "OK".to_string(),
            id: Some(#[verifier::truncate] (rowid as i32)),
            username: Some(username),
            elo_train: Some(START_ELO),
            elo_1v1: Some(START_ELO),
            elo_1v7: Some(START_ELO),
        },
        None => refuse("Zajęte"),
    }
}

/// The statistics of somebody who has not played.
pub open spec fn fresh_stats() -> StatsResponse {
    StatsResponse {
        elo_train: START_ELO,
        elo_1v1: START_ELO,
        elo_1v7: START_ELO,
        streak: 0,
        hands_played: 0,
    }
}

/// The stored statistics, or fresh ones where none could be read.
pub open spec fn stats_answer(stored: Option<StatsResponse>) -> StatsResponse {
    match stored {
        Some(stats) => stats,
        None => fresh_stats(),
    }
}

/// The stored statistics, or fresh ones where none could be read.
pub fn stats_response(stored: Option<StatsResponse>) -> (stats: StatsResponse)
    ensures
        stats == stats_answer(stored),
{
    match stored {
        Some(stats) => stats,
        None => StatsResponse {
            elo_train: START_ELO,
            elo_1v1: START_ELO,
            elo_1v7: START_ELO,
            streak: 0,
            hands_played: 0,
        },
    }
}

/// The statement that stores statistics: the rating goes to the column of the
/// mode, training where the mode is neither of the other two.
pub open spec fn update_sql(of_user: bool, mode: Seq<char>) -> Seq<char> {
    if of_user {
        if mode == "1v1"@ {
            "UPDATE users SET elo_1v1 = ?1, streak = ?2, hands_played = ?3 WHERE id = ?4"@
        } else if mode == "1v7"@ {
            "UPDATE users SET elo_1v7 = ?1, streak = ?2, hands_played = ?3 WHERE id = ?4"@
        } else {
            "UPDATE users SET elo_train = ?1, streak = ?2, hands_played = ?3 WHERE id = ?4"@
        }
    } else {
        if mode == "1v1"@ {
            "UPDATE stats SET elo_1v1 = ?1, streak = ?2, hands_played = ?3 WHERE id = 1"@
        } else if mode == "1v7"@ {
            "UPDATE stats SET elo_1v7 = ?1, streak = ?2, hands_played = ?3 WHERE id = 1"@
        } else {
            "UPDATE stats SET elo_train = ?1, streak = ?2, hands_played = ?3 WHERE id = 1"@
        }
    }
}

/// How to store statistics.
pub fn update_stats(request: &UpdateStatsRequest) -> (statement: Statement)
    ensures
        statement.sql@ == update_sql(request.user_id is Some, request.mode@),
        statement.numbers@ == match request.user_id {
            Some(id) => seq![request.elo, request.streak, request.hands_played, id],
            None => seq![request.elo, request.streak, request.hands_played],
        },
{
    let one = request.mode == "1v1".to_string();
    let seven = request.mode == "1v7".to_string();
    let mut numbers: Vec<i32> = Vec::new();
    numbers.push(request.elo);
    numbers.push(request.streak);
    numbers.push(request.hands_played);
    let sql: &'static str = match request.user_id {
        Some(id) => {
            numbers.push(id);
            if one {
                "UPDATE users SET elo_1v1 = ?1, streak = ?2, hands_played = ?3 WHERE id = ?4"
            } else if seven {
                "UPDATE users SET elo_1v7 = ?1, streak = ?2, hands_played = ?3 WHERE id = ?4"
            } else {
                "UPDATE users SET elo_train = ?1, streak = ?2, hands_played = ?3 WHERE id = ?4"
            }
        },
        None => {
            if one {
                "UPDATE stats SET elo_1v1 = ?1, streak = ?2, hands_played = ?3 WHERE id = 1"
            } else if seven {
                "UPDATE stats SET elo_1v7 = ?1, streak = ?2, hands_played = ?3 WHERE id = 1"
            } else {
                "UPDATE stats SET elo_train = ?1, streak = ?2, hands_played = ?3 WHERE id = 1"
            }
        },
    };
    Statement { sql, numbers }
}

/// What a duel changes of an account.
#[derive(Clone, Copy, Debug, PartialEq, Eq, Structural)]
pub struct DuelRecord {
    pub elo: i64,
    pub streak: i64,
    pub hands_played: i64,
}

/// An account after a duel won.
pub open spec fn won(before: DuelRecord) -> DuelRecord {
    DuelRecord {
        elo: (before.elo + DUEL_STAKE) as i64,
        streak: (before.streak + 1) as i64,
        hands_played: (before.hands_played + 1) as i64,
    }
}

/// An account after a duel lost.
pub open spec fn lost(before: DuelRecord) -> DuelRecord {
    DuelRecord {
        elo: if before.elo < DUEL_STAKE {
            0
        } else {
            (before.elo - DUEL_STAKE) as i64
        },
        streak: 0,
        hands_played: (before.hands_played + 1) as i64,
    }
}

/// Whether a duel won can be added to an account's numbers.
pub open spec fn win_fits(record: DuelRecord) -> bool {
    &&& record.elo <= i64::MAX - DUEL_STAKE
    &&& record.streak < i64::MAX
    &&& record.hands_played < i64::MAX
}

/// Whether a duel lost can be added to an account's numbers.
pub open spec fn loss_fits(record: DuelRecord) -> bool {
    record.hands_played < i64::MAX
}

/// Whether a duel won can be added to an account's numbers.
pub fn can_win(record: &DuelRecord) -> (ok: bool)
    ensures
        ok == win_fits(*record),
{
    record.elo <= i64::MAX - DUEL_STAKE && record.streak < i64::MAX && record.hands_played
        < i64::MAX
}

/// Whether a duel lost can be added to an account's numbers.
pub fn can_lose(record: &DuelRecord) -> (ok: bool)
    ensures
        ok == loss_fits(*record),
{
    record.hands_played < i64::MAX
}

/// The winner's account after a duel.
pub fn settle_win(before: DuelRecord) -> (after: DuelRecord)
    requires
        win_fits(before),
    ensures
        after == won(before),
{
    DuelRecord {
        elo: before.elo + DUEL_STAKE,
        streak: before.streak + 1,
        hands_played: before.hands_played + 1,
    }
}

/// The loser's account after a duel.
pub fn settle_loss(before: DuelRecord) -> (after: DuelRecord)
    requires
        loss_fits(before),
    ensures
        after == lost(before),
{
    DuelRecord {
        elo: if before.elo < DUEL_STAKE {
            0
        } else {
            before.elo - DUEL_STAKE
        },
        streak: 0,
        hands_played: before.hands_played + 1,
    }
}

/// The query of what a duel changes of an account.
pub fn record_query(id: i32) -> (statement: Statement)
    ensures
        statement.sql@ == RECORD_SQL@,
        statement.sql@ == "SELECT elo_1v1, streak, hands_played FROM users WHERE id = ?1"@,
        statement.numbers@ == seq![id],
{
    let mut numbers: Vec<i32> = Vec::new();
    numbers.push(id);
    Statement { sql: RECORD_SQL, numbers }
}

/// The statement that stores what a duel has changed of an account.
pub fn settle_statement(id: i32, after: DuelRecord) -> (statement: WideStatement)
    ensures
        statement.sql@ == SETTLE_SQL@,
        statement.sql@ == "UPDATE users SET elo_1v1 = ?1, streak = ?2, hands_played = ?3 WHERE id = ?4"@,
        statement.numbers@ == seq![after.elo, after.streak, after.hands_played, id as i64],
{
    let mut numbers: Vec<i64> = Vec::new();
    numbers.push(after.elo);
    numbers.push(after.streak);
    numbers.push(after.hands_played);
    numbers.push(id as i64);
    WideStatement { sql: SETTLE_SQL, numbers }
}

/// A duel moves the stake from the loser to the winner, as far as the loser
/// has it; ratings do not fall below zero.
pub proof fn lemma_duel_stake(winner: DuelRecord, loser: DuelRecord)
    requires
        win_fits(winner),
        loss_fits(loser),
    ensures
        won(winner).elo == winner.elo + DUEL_STAKE,
        lost(loser).elo >= 0,
        loser.elo >= DUEL_STAKE ==> won(winner).elo + lost(loser).elo == winner.elo + loser.elo,
{
}

/// A row of the ranking as it was read: nothing where it could not be.
#[derive(Debug)]
pub struct RankedRow {
    pub username: String,
    pub elo: i32,
}

/// A line of the ranking.
#[derive(Debug)]
pub struct LeaderboardEntry {
    pub rank: usize,
    pub username: String,
    pub elo: i32,
}

/// The ranking of rows that are sorted already. A row that could not be read
/// leaves its rank empty.
pub open spec fn ranking(rows: Seq<Option<RankedRow>>) -> Seq<(int, Seq<char>, i32)>
    decreases rows.len(),
{
    if rows.len() == 0 {
        Seq::empty()
    } else {
        let above = ranking(rows.drop_last());
        match rows.last() {
            Some(row) => above.push((rows.len() as int, row.username@, row.elo)),
            None => above,
        }
    }
}

/// The contents of a ranking.
pub open spec fn entries_of(entries: Seq<LeaderboardEntry>) -> Seq<(int, Seq<char>, i32)> {
    entries.map_values(
        |entry: LeaderboardEntry| (entry.rank as int, entry.username@, entry.elo),
    )
}

/// The ranking of rows that are sorted already.
pub fn leaderboard(rows: &Vec<Option<RankedRow>>) -> (entries: Vec<LeaderboardEntry>)
    ensures
        entries_of(entries@) == ranking(rows@),
{
    let mut entries: Vec<LeaderboardEntry> = Vec::new();
    let mut i: usize = 0;
    assert(entries_of(entries@) == ranking(rows@.take(0)));
    while i < rows.len()
        invariant
            i <= rows@.len(),
            entries_of(entries@) == ranking(rows@.take(i as int)),
        decreases rows@.len() - i,
    {
        assert(rows@.take(i + 1).drop_last() == rows@.take(i as int));
        let ghost before = entries@;
        match &rows[i] {
            Some(row) => {
                let entry = LeaderboardEntry {
                    rank: i + 1,
                    username: row.username.clone(),
                    elo: row.elo,
                };
                entries.push(entry);
                assert(entries_of(entries@) == entries_of(before).push(
                    (i + 1, row.username@, row.elo),
                ));
            },
            None => {},
        }
        i = i + 1;
    }
    assert(rows@.take(i as int) == rows@);
    entries
}

/// Each line of a ranking is the row at its rank, ranks only grow, and every
/// row that could be read has its line.
pub proof fn lemma_ranking(rows: Seq<Option<RankedRow>>)
    ensures
        forall|k: int|
            0 <= k < ranking(rows).len() ==> {
                let line = #[trigger] ranking(rows)[k];
                &&& 1 <= line.0 <= rows.len()
                &&& rows[line.0 - 1] matches Some(row)
                &&& line.1 == row.username@
                &&& line.2 == row.elo
            },
        forall|k: int, l: int|
            0 <= k < l < ranking(rows).len() ==> (#[trigger] ranking(rows)[k]).0 < (
            #[trigger] ranking(rows)[l]).0,
        forall|i: int|
            0 <= i < rows.len() && (#[trigger] rows[i]) is Some ==> exists|k: int|
                0 <= k < ranking(rows).len() && (#[trigger] ranking(rows)[k]).0 == i + 1,
    decreases rows.len(),
{
    if rows.len() > 0 {
        let fewer = rows.drop_last();
        lemma_ranking(fewer);
        let above = ranking(fewer);
        assert forall|k: int| 0 <= k < above.len() implies above[k] == #[trigger] ranking(
            rows,
        )[k] by {}
        assert forall|i: int| 0 <= i < rows.len() && (#[trigger] rows[i]) is Some implies exists|
            k: int,
        |
            0 <= k < ranking(rows).len() && (#[trigger] ranking(rows)[k]).0 == i + 1 by {
            if i < fewer.len() {
                assert(fewer[i] is Some);
                let k = choose|k: int| 0 <= k < above.len() && (#[trigger] above[k]).0 == i + 1;
                assert(ranking(rows)[k].0 == i + 1);
            } else {
                assert(ranking(rows)[ranking(rows).len() - 1].0 == i + 1);
            }
        }
    }
}

/// A login that found an account is answered with its number, name and three
/// ratings, each in its place; one that found none is refused, and told nothing
/// of any account.
pub proof fn lemma_login_answer(response: UserResponse, found: Option<UserRow>)
    requires
        login_answer(response, found),
    ensures
        response.success <==> found is Some,
        found matches Some(row) ==> {
            &&& response.message@ == "OK"@
            &&& response.id == Some(row.id)
            &&& response.username is Some
            &&& response.username->0@ == row.username@
            &&& response.elo_train == Some(row.elo_train)
            &&& response.elo_1v1 == Some(row.elo_1v1)
            &&& response.elo_1v7 == Some(row.elo_1v7)
        },
        found is None ==> {
            &&& response.message@ == "Błędne dane"@
            &&& response.id is None && response.username is None
            &&& response.elo_train is None && response.elo_1v1 is None && response.elo_1v7 is None
        },
{
}

/// A registration that stored a row is answered with its number, where that has
/// 32 bits, the name and three ratings of a thousand; one that stored none is
/// refused, and told nothing of any account.
pub proof fn lemma_register_answer(
    response: UserResponse,
    stored: Option<i64>,
    username: Seq<char>,
)
    requires
        register_answer(response, stored, username),
    ensures
        response.success <==> stored is Some,
        stored matches Some(rowid) ==> {
            &&& response.message@ == "OK"@
            &&& response.id is Some
            &&& -0x8000_0000 <= rowid <= 0x7fff_ffff ==> response.id->0 == rowid
            &&& response.username is Some
            &&& response.username->0@ == username
            &&& response.elo_train == Some(1000i32)
            &&& response.elo_1v1 == Some(1000i32)
            &&& response.elo_1v7 == Some(1000i32)
        },
        stored is None ==> {
            &&& response.message@ == "Zajęte"@
            &&& response.id is None && response.username is None
            &&& response.elo_train is None && response.elo_1v1 is None && response.elo_1v7 is None
        },
{
}

/// Stored statistics are answered as they are; where there are none, three
/// ratings of a thousand, no streak and no hands are.
pub proof fn lemma_stats_answer(stored: Option<StatsResponse>)
    ensures
        stored matches Some(stats) ==> stats_answer(stored) == stats,
        stored is None ==> {
            let stats = stats_answer(stored);
            &&& stats.elo_train == 1000 && stats.elo_1v1 == 1000 && stats.elo_1v7 == 1000
            &&& stats.streak == 0 && stats.hands_played == 0
        },
{
}

/// A rating is stored in the column of its mode, training for all modes but the
/// two others, and in the table of the accounts just where there is a user.
pub proof fn lemma_update_sql(mode: Seq<char>)
    ensures
        mode == "1v1"@ ==> update_sql(true, mode)
            == "UPDATE users SET elo_1v1 = ?1, streak = ?2, hands_played = ?3 WHERE id = ?4"@
            && update_sql(false, mode)
            == "UPDATE stats SET elo_1v1 = ?1, streak = ?2, hands_played = ?3 WHERE id = 1"@,
        mode == "1v7"@ ==> update_sql(true, mode)
            == "UPDATE users SET elo_1v7 = ?1, streak = ?2, hands_played = ?3 WHERE id = ?4"@
            && update_sql(false, mode)
            == "UPDATE stats SET elo_1v7 = ?1, streak = ?2, hands_played = ?3 WHERE id = 1"@,
        mode != "1v1"@ && mode != "1v7"@ ==> update_sql(true, mode)
            == "UPDATE users SET elo_train = ?1, streak = ?2, hands_played = ?3 WHERE id = ?4"@
            && update_sql(false, mode)
            == "UPDATE stats SET elo_train = ?1, streak = ?2, hands_played = ?3 WHERE id = 1"@,
{
    reveal_strlit("1v1");
    reveal_strlit("1v7");
    assert("1v1"@[2] != "1v7"@[2]);
}

/// A duel gives the winner 25 points and one more win in a row, takes 25 from
/// the loser, down to zero, and ends the loser's row of wins; both have played
/// one more hand. Only numbers at the end of 64 bits are out of its reach.
pub proof fn lemma_duel_records(before: DuelRecord)
    ensures
        win_fits(before) <==> before.elo + 25 <= i64::MAX && before.streak + 1 <= i64::MAX
            && before.hands_played + 1 <= i64::MAX,
        loss_fits(before) <==> before.hands_played + 1 <= i64::MAX,
        win_fits(before) ==> {
            let after = won(before);
            &&& after.elo == before.elo + 25
            &&& after.streak == before.streak + 1
            &&& after.hands_played == before.hands_played + 1
        },
        loss_fits(before) ==> {
            let after = lost(before);
            &&& after.elo == vstd::math::max(0, before.elo - 25)
            &&& after.streak == 0
            &&& after.hands_played == before.hands_played + 1
        },
{
}

/// A ranking shows the rank, the name and the rating of each of its lines.
pub proof fn lemma_entries(entries: Seq<LeaderboardEntry>, k: int)
    requires
        0 <= k < entries.len(),
    ensures
        entries_of(entries).len() == entries.len(),
        entries_of(entries)[k].0 == entries[k].rank,
        entries_of(entries)[k].1 == entries[k].username@,
        entries_of(entries)[k].2 == entries[k].elo,
{
}

} // verus!
