//! A model of the tables, of what the statements mean for them, and what
//! follows from it. The meaning of the SQL is modelled here, not drawn from its
//! texts: `tests/database.rs` and `tests/tables.rs` try those on SQLite.

use vstd::prelude::*;
use crate::accounts::{
    fresh_stats, grants, lemma_ranking, login_answer, loss_fits, lost, ranking, refuses,
    register_answer, stats_answer, win_fits, won, DuelRecord, RankedRow, StatsResponse,
    UpdateStatsRequest, UserResponse, UserRow, DUEL_STAKE, START_ELO,
};
use crate::friends::{
    comes_before, is_listed, lemma_read_rows, read_rows, FriendInfo, FriendStatus, FriendTable,
};
use crate::store::lacks_row;

verus! {

/// An account as it is stored. The database's numbers have 64 bits.
pub ghost struct User {
    pub id: i64,
    pub password: Seq<char>,
    pub elo_train: i64,
    pub elo_1v1: i64,
    pub elo_1v7: i64,
    pub streak: i64,
    pub hands_played: i64,
}

/// The accounts, by name.
pub type Users = Map<Seq<char>, User>;

/// The rows of shared statistics, by number.
pub type SharedStats = Map<int, StatsResponse>;

/// The tables, as far as they have been made.
#[verifier::ext_equal]
pub ghost struct Tables {
    pub users: Option<Users>,
    pub stats: Option<SharedStats>,
    pub friends: Option<FriendTable>,
}

/// A new account.
pub open spec fn new_user(id: i64, password: Seq<char>) -> User {
    User {
        id,
        password,
        elo_train: START_ELO as i64,
        elo_1v1: START_ELO as i64,
        elo_1v7: START_ELO as i64,
        streak: 0,
        hands_played: 0,
    }
}

/// Whether a number is above that of every account.
pub open spec fn is_above(users: Users, rowid: i64) -> bool {
    forall|name: Seq<char>| #[trigger] users.contains_key(name) ==> users[name].id < rowid
}

/// Whether no number is left for another account.
pub open spec fn is_exhausted(users: Users) -> bool {
    exists|name: Seq<char>| #[trigger] users.contains_key(name) && users[name].id == i64::MAX
}

/// Whether no two accounts have the same number.
pub open spec fn are_numbered_apart(users: Users) -> bool {
    forall|one: Seq<char>, other: Seq<char>|
        #[trigger] users.contains_key(one) && #[trigger] users.contains_key(other) && one != other
            ==> users[one].id != users[other].id
}

/// Whether a registration stores a row under a number, or none, and leaves the
/// accounts so. A new row's number is above all others; no row is stored under
/// a name that is taken, nor where no number is left.
pub open spec fn registers(
    users: Users,
    username: Seq<char>,
    password: Seq<char>,
    stored: Option<i64>,
    after: Users,
) -> bool {
    match stored {
        Some(rowid) => {
            &&& !users.contains_key(username)
            &&& is_above(users, rowid)
            &&& after == users.insert(username, new_user(rowid, password))
        },
        None => (users.contains_key(username) || is_exhausted(users)) && after == users,
    }
}

/// Whether a stored number has 32 bits, as it must to be read.
pub open spec fn fits(number: i64) -> bool {
    i32::MIN <= number <= i32::MAX
}

/// Whether the numbers that a login reads of an account can be read.
pub open spec fn is_legible(user: User) -> bool {
    fits(user.id) && fits(user.elo_train) && fits(user.elo_1v1) && fits(user.elo_1v7)
}

/// Whether a login with a name and a password reads that row, or none.
pub open spec fn login_reads(
    found: Option<UserRow>,
    users: Users,
    username: Seq<char>,
    password: Seq<char>,
) -> bool {
    if users.contains_key(username) && users[username].password == password && is_legible(
        users[username],
    ) {
        &&& found matches Some(row)
        &&& row.id == users[username].id
        &&& row.username@ == username
        &&& row.elo_train == users[username].elo_train
        &&& row.elo_1v1 == users[username].elo_1v1
        &&& row.elo_1v7 == users[username].elo_1v7
    } else {
        found is None
    }
}

/// A login after a registration that succeeded, while nothing has changed the
/// account, finds it: under the number that the registration answered, where
/// the row's number has 32 bits, and with three ratings of a thousand. A login
/// with another password is refused.
pub proof fn lemma_login_after_registration(
    users: Users,
    after: Users,
    later: Users,
    username: Seq<char>,
    password: Seq<char>,
    stored: Option<i64>,
    registration: UserResponse,
    found: Option<UserRow>,
    login: UserResponse,
    other: Seq<char>,
    missed: Option<UserRow>,
    refusal: UserResponse,
)
    requires
        registers(users, username, password, stored, after),
        register_answer(registration, stored, username),
        registration.success,
        fits(stored->0),
        later.contains_key(username),
        later[username] == after[username],
        login_reads(found, later, username, password),
        login_answer(login, found),
        other != password,
        login_reads(missed, later, username, other),
        login_answer(refusal, missed),
    ensures
        registration.id is Some,
        grants(login, registration.id->0, username, START_ELO, START_ELO, START_ELO),
        refuses(refusal, "Błędne dane"@),
{
}

/// A registration succeeds just where the name is free and a number is left.
/// One that is refused changes nothing; one that succeeds touches no other
/// account, and its number is above theirs, so that numbers stay apart.
pub proof fn lemma_registration(
    users: Users,
    after: Users,
    username: Seq<char>,
    password: Seq<char>,
    stored: Option<i64>,
    registration: UserResponse,
)
    requires
        registers(users, username, password, stored, after),
        register_answer(registration, stored, username),
    ensures
        registration.success <==> !users.contains_key(username) && !is_exhausted(users),
        !registration.success ==> after == users,
        registration.success ==> after.dom() == users.dom().insert(username),
        forall|name: Seq<char>| #[trigger]
            users.contains_key(name) ==> after.contains_key(name) && after[name] == users[name],
        registration.success ==> is_above(users, after[username].id),
        are_numbered_apart(users) ==> are_numbered_apart(after),
{
}

/// A row of shared statistics with what a request stores in it: the rating of
/// its mode, the streak and the hands played.
pub open spec fn row_updated(row: StatsResponse, request: UpdateStatsRequest) -> StatsResponse {
    let one = request.mode@ == "1v1"@;
    let seven = !one && request.mode@ == "1v7"@;
    StatsResponse {
        elo_train: if one || seven {
            row.elo_train
        } else {
            request.elo
        },
        elo_1v1: if one {
            request.elo
        } else {
            row.elo_1v1
        },
        elo_1v7: if seven {
            request.elo
        } else {
            row.elo_1v7
        },
        streak: request.streak,
        hands_played: request.hands_played,
    }
}

/// An account with what a request stores in it.
pub open spec fn user_updated(user: User, request: UpdateStatsRequest) -> User {
    let one = request.mode@ == "1v1"@;
    let seven = !one && request.mode@ == "1v7"@;
    User {
        elo_train: if one || seven {
            user.elo_train
        } else {
            request.elo as i64
        },
        elo_1v1: if one {
            request.elo as i64
        } else {
            user.elo_1v1
        },
        elo_1v7: if seven {
            request.elo as i64
        } else {
            user.elo_1v7
        },
        streak: request.streak as i64,
        hands_played: request.hands_played as i64,
        ..user
    }
}

/// The shared statistics after a request to store some: one without a user
/// goes to the first row, if there is one.
pub open spec fn stats_updated(stats: SharedStats, request: UpdateStatsRequest) -> SharedStats {
    if request.user_id is None && stats.contains_key(1) {
        stats.insert(1, row_updated(stats[1], request))
    } else {
        stats
    }
}

/// The accounts after a request to store statistics: one with a user goes to
/// that user's account, if there is one.
pub open spec fn users_updated(users: Users, request: UpdateStatsRequest) -> Users {
    match request.user_id {
        Some(id) => users.map_values(
            |user: User|
                if user.id == id {
                    user_updated(user, request)
                } else {
                    user
                },
        ),
        None => users,
    }
}

/// What is read of the shared statistics: the first row, if there is one.
pub open spec fn stats_read(stats: SharedStats) -> Option<StatsResponse> {
    if stats.contains_key(1) {
        Some(stats[1])
    } else {
        None
    }
}

/// Reading the shared statistics gives back what was stored: the streak, the
/// hands played and the rating of the mode, with the other two ratings as they
/// were. Where there is no row, the answer is the fresh statistics.
pub proof fn lemma_stats_read_back(stats: SharedStats, request: UpdateStatsRequest)
    requires
        request.user_id is None,
    ensures
        ({
            let before = stats_answer(stats_read(stats));
            let after = stats_answer(stats_read(stats_updated(stats, request)));
            let one = request.mode@ == "1v1"@;
            let seven = request.mode@ == "1v7"@;
            if stats.contains_key(1) {
                &&& after.streak == request.streak
                &&& after.hands_played == request.hands_played
                &&& one ==> after.elo_1v1 == request.elo && after.elo_1v7 == before.elo_1v7
                    && after.elo_train == before.elo_train
                &&& seven ==> after.elo_1v7 == request.elo && after.elo_1v1 == before.elo_1v1
                    && after.elo_train == before.elo_train
                &&& !one && !seven ==> after.elo_train == request.elo && after.elo_1v1
                    == before.elo_1v1 && after.elo_1v7 == before.elo_1v7
            } else {
                after == fresh_stats() && before == fresh_stats()
            }
        }),
{
    reveal_strlit("1v1");
    reveal_strlit("1v7");
    assert("1v1"@[2] != "1v7"@[2]);
}

/// Statistics of a user leave the shared ones and all other users alone, and
/// shared ones leave all users alone.
pub proof fn lemma_stats_apart(stats: SharedStats, users: Users, request: UpdateStatsRequest)
    ensures
        request.user_id is Some ==> stats_updated(stats, request) == stats,
        request.user_id is None ==> users_updated(users, request) == users,
        users_updated(users, request).dom() == users.dom(),
        forall|name: Seq<char>| #[trigger]
            users.contains_key(name) && (request.user_id matches Some(id) ==> users[name].id != id)
                ==> users_updated(users, request)[name] == users[name],
        forall|name: Seq<char>| #[trigger]
            users.contains_key(name) ==> users_updated(users, request)[name].password
                == users[name].password && users_updated(users, request)[name].id == users[name].id,
{
    assert(users_updated(users, request).dom() =~= users.dom());
}

/// What a duel changes of an account.
pub open spec fn record_of(user: User) -> DuelRecord {
    DuelRecord { elo: user.elo_1v1, streak: user.streak, hands_played: user.hands_played }
}

/// An account with what a duel has changed of it.
pub open spec fn with_record(user: User, record: DuelRecord) -> User {
    User {
        elo_1v1: record.elo,
        streak: record.streak,
        hands_played: record.hands_played,
        ..user
    }
}

/// Whether a duel won can be added to the account with a number, if there is
/// one.
pub open spec fn can_add_win(users: Users, id: i32) -> bool {
    forall|name: Seq<char>| #[trigger]
        users.contains_key(name) && users[name].id == id ==> win_fits(record_of(users[name]))
}

/// Whether a duel lost can be added to the account with a number, if there is
/// one.
pub open spec fn can_add_loss(users: Users, id: i32) -> bool {
    forall|name: Seq<char>| #[trigger]
        users.contains_key(name) && users[name].id == id ==> loss_fits(record_of(users[name]))
}

/// The accounts after the one with a number, if there is one, has won a duel.
pub open spec fn win_added(users: Users, id: i32) -> Users {
    users.map_values(
        |user: User|
            if user.id == id {
                with_record(user, won(record_of(user)))
            } else {
                user
            },
    )
}

/// The accounts after the one with a number, if there is one, has lost a duel.
pub open spec fn loss_added(users: Users, id: i32) -> Users {
    users.map_values(
        |user: User|
            if user.id == id {
                with_record(user, lost(record_of(user)))
            } else {
                user
            },
    )
}

/// The accounts after a duel. The win is stored first; what cannot be added is
/// not stored, nor what comes after it.
pub open spec fn settled(users: Users, winner_id: i32, loser_id: i32) -> Users {
    if !can_add_win(users, winner_id) {
        users
    } else if !can_add_loss(win_added(users, winner_id), loser_id) {
        win_added(users, winner_id)
    } else {
        loss_added(win_added(users, winner_id), loser_id)
    }
}

/// A duel changes the winner's account as a win does and the loser's as a loss
/// does, where that can be added: the rating in duels, the streak and the hands
/// played. All other columns, all other accounts and the names stay; a player
/// without an account changes nothing.
pub proof fn lemma_settled(users: Users, winner_id: i32, loser_id: i32)
    ensures
        settled(users, winner_id, loser_id).dom() == users.dom(),
        forall|name: Seq<char>| #[trigger]
            users.contains_key(name) ==> {
                let after = settled(users, winner_id, loser_id)[name];
                after == with_record(users[name], record_of(after))
            },
        forall|name: Seq<char>| #[trigger]
            users.contains_key(name) && users[name].id != winner_id && users[name].id != loser_id
                ==> settled(users, winner_id, loser_id)[name] == users[name],
        winner_id != loser_id && can_add_win(users, winner_id) && can_add_loss(users, loser_id)
            ==> forall|name: Seq<char>| #[trigger]
            users.contains_key(name) ==> {
                let before = record_of(users[name]);
                let after = record_of(settled(users, winner_id, loser_id)[name]);
                &&& users[name].id == winner_id ==> after == won(before)
                &&& users[name].id == loser_id ==> after == lost(before)
            },
        (forall|name: Seq<char>| #[trigger]
            users.contains_key(name) ==> users[name].id != winner_id && users[name].id != loser_id)
            ==> settled(users, winner_id, loser_id) == users,
{
    let after_win = win_added(users, winner_id);
    assert(after_win.dom() =~= users.dom());
    assert(loss_added(after_win, loser_id).dom() =~= users.dom());
    if forall|name: Seq<char>| #[trigger]
        users.contains_key(name) ==> users[name].id != winner_id && users[name].id != loser_id {
        assert(settled(users, winner_id, loser_id) =~= users);
    }
    if winner_id != loser_id && can_add_loss(users, loser_id) {
        assert forall|name: Seq<char>| #[trigger]
            after_win.contains_key(name) && after_win[name].id == loser_id implies loss_fits(
            record_of(after_win[name]),
        ) by {
            assert(users.contains_key(name));
        }
    }
}

/// The ratings in duels of the accounts with some names, all together.
pub open spec fn ratings_of(users: Users, names: Seq<Seq<char>>) -> int
    decreases names.len(),
{
    if names.len() == 0 {
        0
    } else {
        ratings_of(users, names.drop_last()) + users[names.last()].elo_1v1
    }
}

proof fn lemma_ratings_moved(
    users: Users,
    after: Users,
    names: Seq<Seq<char>>,
    winner: Seq<char>,
    loser: Seq<char>,
)
    requires
        winner != loser,
        names.no_duplicates(),
        after[winner].elo_1v1 == users[winner].elo_1v1 + DUEL_STAKE,
        after[loser].elo_1v1 == users[loser].elo_1v1 - DUEL_STAKE,
        forall|i: int|
            0 <= i < names.len() && names[i] != winner && names[i] != loser
                ==> after[#[trigger] names[i]] == users[names[i]],
    ensures
        ratings_of(after, names) == ratings_of(users, names) + (if names.contains(winner) {
            DUEL_STAKE as int
        } else {
            0
        }) - (if names.contains(loser) {
            DUEL_STAKE as int
        } else {
            0
        }),
    decreases names.len(),
{
    if names.len() > 0 {
        let fewer = names.drop_last();
        let last = names.len() - 1;
        lemma_ratings_moved(users, after, fewer, winner, loser);
        assert forall|name: Seq<char>| names.contains(name) <==> #[trigger] fewer.contains(name)
            || name == names[last] by {
            if names.contains(name) {
                let i = choose|i: int| 0 <= i < names.len() && names[i] == name;
                if i < last {
                    assert(fewer[i] == name);
                }
            }
            if fewer.contains(name) {
                let i = choose|i: int| 0 <= i < fewer.len() && fewer[i] == name;
                assert(names[i] == name);
            }
        }
        assert(!fewer.contains(names[last])) by {
            if fewer.contains(names[last]) {
                let i = choose|i: int| 0 <= i < fewer.len() && fewer[i] == names[last];
                assert(names[i] == names[last]);
            }
        }
    }
}

/// A duel of two accounts keeps the sum of all ratings, where the loser has the
/// stake: `names` are those of all accounts, in any order.
pub proof fn lemma_settled_keeps_ratings(
    users: Users,
    names: Seq<Seq<char>>,
    winner: Seq<char>,
    loser: Seq<char>,
    winner_id: i32,
    loser_id: i32,
)
    requires
        are_numbered_apart(users),
        names.no_duplicates(),
        forall|name: Seq<char>| #[trigger] names.contains(name) <==> users.contains_key(name),
        users.contains_key(winner),
        users.contains_key(loser),
        winner != loser,
        users[winner].id == winner_id,
        users[loser].id == loser_id,
        win_fits(record_of(users[winner])),
        loss_fits(record_of(users[loser])),
        users[loser].elo_1v1 >= DUEL_STAKE,
    ensures
        ratings_of(settled(users, winner_id, loser_id), names) == ratings_of(users, names),
{
    let after = settled(users, winner_id, loser_id);
    lemma_settled(users, winner_id, loser_id);
    assert forall|name: Seq<char>| #[trigger]
        users.contains_key(name) && users[name].id == winner_id implies name == winner by {}
    assert forall|name: Seq<char>| #[trigger]
        users.contains_key(name) && users[name].id == loser_id implies name == loser by {}
    assert(can_add_win(users, winner_id));
    assert(can_add_loss(users, loser_id));
    assert(record_of(after[winner]) == won(record_of(users[winner])));
    assert(record_of(after[loser]) == lost(record_of(users[loser])));
    assert forall|i: int|
        0 <= i < names.len() && names[i] != winner && names[i] != loser implies after[
    #[trigger] names[i]] == users[names[i]] by {
        assert(names.contains(names[i]));
    }
    assert(names.contains(winner) && names.contains(loser));
    lemma_ratings_moved(users, after, names, winner, loser);
}

/// Whether names are those of the best players of duels, the best one first:
/// at most ten, with nobody left out who stands above one of them, nor anybody
/// at all where they are fewer than ten. Which of two equals comes first is
/// open.
pub open spec fn are_best(names: Seq<Seq<char>>, users: Users) -> bool {
    &&& names.len() <= 10
    &&& names.no_duplicates()
    &&& forall|i: int| 0 <= i < names.len() ==> users.contains_key(#[trigger] names[i])
    &&& forall|i: int, j: int|
        0 <= i < j < names.len() ==> users[#[trigger] names[i]].elo_1v1
            >= users[#[trigger] names[j]].elo_1v1
    &&& forall|name: Seq<char>, i: int|
        #[trigger] users.contains_key(name) && !names.contains(name) && 0 <= i < names.len()
            ==> users[#[trigger] names[i]].elo_1v1 >= users[name].elo_1v1
    &&& names.len() < 10 ==> forall|name: Seq<char>| #[trigger]
        users.contains_key(name) ==> names.contains(name)
}

/// Whether a row of the ranking is read so for an account: nothing where its
/// rating does not have 32 bits.
pub open spec fn ranked_row_reads(
    row: Option<RankedRow>,
    users: Users,
    username: Seq<char>,
) -> bool {
    match row {
        Some(ranked) => ranked.username@ == username && ranked.elo == users[username].elo_1v1,
        None => !fits(users[username].elo_1v1),
    }
}

/// Whether the rows of the ranking are read of these accounts.
pub open spec fn rank_rows(
    rows: Seq<Option<RankedRow>>,
    users: Users,
    names: Seq<Seq<char>>,
) -> bool {
    &&& are_best(names, users)
    &&& rows.len() == names.len()
    &&& forall|i: int|
        0 <= i < rows.len() ==> ranked_row_reads(#[trigger] rows[i], users, names[i])
}

/// Whether the ranking reads these rows.
pub open spec fn ranking_reads(rows: Seq<Option<RankedRow>>, users: Users) -> bool {
    exists|names: Seq<Seq<char>>| rank_rows(rows, users, names)
}

/// Whether a ranking has a line for a name.
pub open spec fn is_ranked(rows: Seq<Option<RankedRow>>, username: Seq<char>) -> bool {
    exists|k: int| 0 <= k < ranking(rows).len() && (#[trigger] ranking(rows)[k]).1 == username
}

/// The ranking has at most ten lines, with ranks up to ten. Each is an
/// account's, with its rating; ratings fall, and nobody is there twice. An
/// account whose rating can be read is left out only where ten others stand at
/// least as high as it does.
pub proof fn lemma_best_are_ranked(rows: Seq<Option<RankedRow>>, users: Users)
    requires
        ranking_reads(rows, users),
    ensures
        ranking(rows).len() <= 10,
        forall|k: int|
            0 <= k < ranking(rows).len() ==> {
                let line = #[trigger] ranking(rows)[k];
                &&& 1 <= line.0 <= 10
                &&& users.contains_key(line.1)
                &&& line.2 == users[line.1].elo_1v1
            },
        forall|k: int, l: int|
            0 <= k < l < ranking(rows).len() ==> {
                let above = #[trigger] ranking(rows)[k];
                let below = #[trigger] ranking(rows)[l];
                above.0 < below.0 && above.1 != below.1 && above.2 >= below.2
            },
        forall|name: Seq<char>| #[trigger]
            users.contains_key(name) && fits(users[name].elo_1v1) && !is_ranked(rows, name)
                ==> rows.len() == 10 && forall|k: int|
                0 <= k < ranking(rows).len() ==> (#[trigger] ranking(rows)[k]).2
                    >= users[name].elo_1v1,
{
    let names = choose|names: Seq<Seq<char>>| rank_rows(rows, users, names);
    let lines = ranking(rows);
    lemma_ranking(rows);
    assert forall|k: int| 0 <= k < lines.len() implies {
        let line = #[trigger] lines[k];
        line.1 == names[line.0 - 1] && line.2 == users[line.1].elo_1v1
    } by {
        let i = lines[k].0 - 1;
        assert(ranked_row_reads(rows[i], users, names[i]));
    }
    lemma_growing_is_short(lines, rows.len() as int);
    assert forall|name: Seq<char>| #[trigger]
        users.contains_key(name) && fits(users[name].elo_1v1) && !is_ranked(
            rows,
            name,
        ) implies rows.len() == 10 && forall|k: int|
        0 <= k < lines.len() ==> (#[trigger] lines[k]).2 >= users[name].elo_1v1 by {
        if names.contains(name) {
            let i = choose|i: int| 0 <= i < names.len() && names[i] == name;
            assert(ranked_row_reads(rows[i], users, names[i]));
            let k = choose|k: int| 0 <= k < lines.len() && (#[trigger] lines[k]).0 == i + 1;
            assert(lines[k].1 == name);
        }
    }
}

/// Lines whose ranks grow from one up to a last one are no more than that.
proof fn lemma_growing_is_short(lines: Seq<(int, Seq<char>, i32)>, last: int)
    requires
        0 <= last,
        forall|k: int| 0 <= k < lines.len() ==> 1 <= (#[trigger] lines[k]).0 <= last,
        forall|k: int, l: int|
            0 <= k < l < lines.len() ==> (#[trigger] lines[k]).0 < (#[trigger] lines[l]).0,
    ensures
        lines.len() <= last,
    decreases lines.len(),
{
    if lines.len() > 0 {
        let fewer = lines.drop_last();
        assert forall|k: int| 0 <= k < fewer.len() implies 1 <= (#[trigger] fewer[k]).0
            <= lines.last().0 - 1 by {
            assert(lines[k].0 < lines[lines.len() - 1].0);
        }
        lemma_growing_is_short(fewer, lines.last().0 - 1);
    }
}

/// How a status is written in the table.
pub open spec fn status_text(status: FriendStatus) -> Seq<char> {
    match status {
        FriendStatus::Accepted => "accepted"@,
        FriendStatus::Pending => "pending"@,
    }
}

/// Whether a user is shown the account with a name, with a status.
pub open spec fn is_shown(
    users: Users,
    table: FriendTable,
    user_id: i32,
    username: Seq<char>,
    status: FriendStatus,
) -> bool {
    users.contains_key(username) && fits(users[username].id) && is_listed(
        table,
        user_id,
        users[username].id as i32,
        status,
    )
}

/// Whether a listed friend is an account with a status: with its number, name
/// and rating.
pub open spec fn describes(
    info: FriendInfo,
    users: Users,
    username: Seq<char>,
    status: FriendStatus,
) -> bool {
    &&& info.id == users[username].id
    &&& info.username@ == username
    &&& info.elo_1v1 == users[username].elo_1v1
    &&& info.status@ == status_text(status)
}

/// Whether the rows are read of those that a user is shown, each of them once:
/// nothing where a rating does not have 32 bits. The order is open.
pub open spec fn show_rows(
    rows: Seq<Option<FriendInfo>>,
    users: Users,
    table: FriendTable,
    user_id: i32,
    shown: Seq<(Seq<char>, FriendStatus)>,
) -> bool {
    &&& shown.no_duplicates()
    &&& forall|username: Seq<char>, status: FriendStatus|
        #[trigger] shown.contains((username, status)) <==> is_shown(
            users,
            table,
            user_id,
            username,
            status,
        )
    &&& rows.len() == shown.len()
    &&& forall|i: int|
        0 <= i < rows.len() ==> match #[trigger] rows[i] {
            Some(info) => describes(info, users, shown[i].0, shown[i].1),
            None => !fits(users[shown[i].0].elo_1v1),
        }
}

/// Whether the list of a user's friends reads these rows.
pub open spec fn list_reads(
    rows: Seq<Option<FriendInfo>>,
    users: Users,
    table: FriendTable,
    user_id: i32,
) -> bool {
    exists|shown: Seq<(Seq<char>, FriendStatus)>| show_rows(rows, users, table, user_id, shown)
}

/// Whether a listed friend is one that the user is shown.
pub open spec fn is_rightly_listed(
    info: FriendInfo,
    users: Users,
    table: FriendTable,
    user_id: i32,
) -> bool {
    exists|status: FriendStatus| #[trigger]
        is_shown(users, table, user_id, info.username@, status) && describes(
            info,
            users,
            info.username@,
            status,
        )
}

/// Whether the list has a friend with a name and a status.
pub open spec fn lists(
    rows: Seq<Option<FriendInfo>>,
    users: Users,
    username: Seq<char>,
    status: FriendStatus,
) -> bool {
    exists|k: int|
        0 <= k < read_rows(rows).len() && describes(
            #[trigger] read_rows(rows)[k],
            users,
            username,
            status,
        )
}

/// The list of a user's friends holds just those that the user is shown, with
/// their numbers, names, ratings and statuses; nobody is there twice with the
/// same status, and nobody is missing whose rating can be read.
pub proof fn lemma_shown_are_listed(
    rows: Seq<Option<FriendInfo>>,
    users: Users,
    table: FriendTable,
    user_id: i32,
)
    requires
        list_reads(rows, users, table, user_id),
    ensures
        forall|k: int|
            0 <= k < read_rows(rows).len() ==> is_rightly_listed(
                #[trigger] read_rows(rows)[k],
                users,
                table,
                user_id,
            ),
        forall|k: int, l: int|
            0 <= k < l < read_rows(rows).len() ==> {
                let one = #[trigger] read_rows(rows)[k];
                let other = #[trigger] read_rows(rows)[l];
                one.username@ != other.username@ || one.status@ != other.status@
            },
        forall|username: Seq<char>, status: FriendStatus| #[trigger]
            is_shown(users, table, user_id, username, status) && fits(users[username].elo_1v1)
                ==> lists(rows, users, username, status),
{
    let shown = choose|shown: Seq<(Seq<char>, FriendStatus)>|
        show_rows(rows, users, table, user_id, shown);
    let infos = read_rows(rows);
    lemma_read_rows(rows);
    assert forall|k: int| 0 <= k < infos.len() implies is_rightly_listed(
        #[trigger] infos[k],
        users,
        table,
        user_id,
    ) by {
        let i = choose|i: int| 0 <= i < rows.len() && #[trigger] rows[i] == Some(infos[k]);
        assert(shown.contains((shown[i].0, shown[i].1))) by {
            assert(shown[i] == (shown[i].0, shown[i].1));
        }
        assert(is_shown(users, table, user_id, infos[k].username@, shown[i].1));
    }
    assert forall|k: int, l: int| 0 <= k < l < infos.len() implies {
        let one = #[trigger] infos[k];
        let other = #[trigger] infos[l];
        one.username@ != other.username@ || one.status@ != other.status@
    } by {
        assert(comes_before(rows, infos[k], infos[l]));
        let (i, j) = choose|i: int, j: int|
            0 <= i < j < rows.len() && #[trigger] rows[i] == Some(infos[k]) && #[trigger] rows[j]
                == Some(infos[l]);
        assert(shown[i] != shown[j]);
        reveal_strlit("accepted");
        reveal_strlit("pending");
        assert("accepted"@.len() != "pending"@.len());
    }
    assert forall|username: Seq<char>, status: FriendStatus| #[trigger]
        is_shown(users, table, user_id, username, status) && fits(
            users[username].elo_1v1,
        ) implies lists(rows, users, username, status) by {
        assert(shown.contains((username, status)));
        let i = choose|i: int| 0 <= i < shown.len() && shown[i] == (username, status);
        assert(rows[i] is Some);
        let k = choose|k: int| 0 <= k < infos.len() && infos[k] == rows[i]->0;
        assert(describes(infos[k], users, username, status));
    }
}

/// The shared statistics with their first row, which is added where there is
/// no row.
pub open spec fn stats_seeded(stats: SharedStats) -> SharedStats {
    if lacks_row(stats.len() as int) {
        stats.insert(1, fresh_stats())
    } else {
        stats
    }
}

/// The tables after they have been prepared: the missing ones are made, and
/// the first row of shared statistics is added where there is none.
pub open spec fn prepared(tables: Tables) -> Tables {
    Tables {
        users: match tables.users {
            Some(users) => Some(users),
            None => Some(Map::empty()),
        },
        stats: match tables.stats {
            Some(stats) => Some(stats_seeded(stats)),
            None => Some(stats_seeded(Map::empty())),
        },
        friends: match tables.friends {
            Some(friends) => Some(friends),
            None => Some(Map::empty()),
        },
    }
}

/// Preparing the tables makes all three, changes no row that is there, adds
/// fresh statistics as the only row where there was none, and changes nothing
/// the second time.
pub proof fn lemma_prepared(tables: Tables)
    requires
        tables.stats matches Some(stats) ==> stats.dom().finite(),
    ensures
        prepared(tables).users is Some,
        prepared(tables).stats is Some,
        prepared(tables).friends is Some,
        tables.users is Some ==> prepared(tables).users == tables.users,
        tables.friends is Some ==> prepared(tables).friends == tables.friends,
        match tables.stats {
            Some(stats) => if stats.dom() == Set::<int>::empty() {
                prepared(tables).stats == Some(map![1int => fresh_stats()])
            } else {
                prepared(tables).stats == Some(stats)
            },
            None => prepared(tables).stats == Some(map![1int => fresh_stats()]),
        },
        prepared(prepared(tables)) == prepared(tables),
{
    let none = Map::<int, StatsResponse>::empty();
    assert(none.insert(1, fresh_stats()) =~= map![1int => fresh_stats()]);
    assert(none.dom().len() == 0);
    assert(none.insert(1, fresh_stats()).dom() =~= none.dom().insert(1));
    assert(none.insert(1, fresh_stats()).len() == 1);
    if let Some(stats) = tables.stats {
        if stats.len() == 0 {
            assert(stats.dom() =~= Set::<int>::empty());
            assert(stats =~= none);
        }
    }
}

} // verus!
