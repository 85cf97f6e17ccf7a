//! Friendships: invitations, and what accepting one does.

use vstd::prelude::*;
use crate::store::{Statement, TextStatement};
use crate::text::{i32_of, parse_i32};

verus! {

/// Accepted rows of the user's own, and pending rows of others that name the
/// user.
pub const LIST_SQL: &'static str = "SELECT u.id, u.username, u.elo_1v1, f.status FROM users u JOIN friends f ON u.id = f.friend_id WHERE f.user_id = ?1 AND f.status = 'accepted' UNION SELECT u.id, u.username, u.elo_1v1, f.status FROM users u JOIN friends f ON u.id = f.user_id WHERE f.friend_id = ?1 AND f.status = 'pending'";

/// The number of the user with a name.
pub const FIND_SQL: &'static str = "SELECT id FROM users WHERE username = ?1";

/// How far a friendship has come, seen from one side.
#[derive(Clone, Copy, Debug, PartialEq, Eq, Structural)]
pub enum FriendStatus {
    Pending,
    Accepted,
}

/// A change to the table of friendships, whose rows are unique by both users.
#[derive(Clone, Copy, Debug, PartialEq, Eq, Structural)]
pub enum FriendChange {
    /// A pending row, unless there is a row.
    Invite { from: i32, to: i32 },
    /// The row, if there is one, becomes accepted.
    Accept { from: i32, to: i32 },
    /// An accepted row, unless there is a row.
    Befriend { from: i32, to: i32 },
}

/// The table of friendships.
pub type FriendTable = Map<(i32, i32), FriendStatus>;

/// The table after a change.
pub open spec fn changed(table: FriendTable, change: FriendChange) -> FriendTable {
    match change {
        FriendChange::Invite { from, to } => if table.contains_key((from, to)) {
            table
        } else {
            table.insert((from, to), FriendStatus::Pending)
        },
        FriendChange::Accept { from, to } => if table.contains_key((from, to)) {
            table.insert((from, to), FriendStatus::Accepted)
        } else {
            table
        },
        FriendChange::Befriend { from, to } => if table.contains_key((from, to)) {
            table
        } else {
            table.insert((from, to), FriendStatus::Accepted)
        },
    }
}

/// The table after several changes, one after the other.
pub open spec fn all_changed(table: FriendTable, changes: Seq<FriendChange>) -> FriendTable
    decreases changes.len(),
{
    if changes.len() == 0 {
        table
    } else {
        changed(all_changed(table, changes.drop_last()), changes.last())
    }
}

/// The statement that makes a change.
pub open spec fn change_sql(change: FriendChange) -> Seq<char> {
    match change {
        FriendChange::Invite { .. } => "INSERT OR IGNORE INTO friends (user_id, friend_id, status) VALUES (?1, ?2, 'pending')"@,
        FriendChange::Accept { .. } => "UPDATE friends SET status = 'accepted' WHERE user_id = ?1 AND friend_id = ?2"@,
        FriendChange::Befriend { .. } => "INSERT OR IGNORE INTO friends (user_id, friend_id, status) VALUES (?1, ?2, 'accepted')"@,
    }
}

/// The two users of a change.
pub open spec fn change_users(change: FriendChange) -> Seq<i32> {
    match change {
        FriendChange::Invite { from, to } => seq![from, to],
        FriendChange::Accept { from, to } => seq![from, to],
        FriendChange::Befriend { from, to } => seq![from, to],
    }
}

impl FriendChange {
    /// The statement that makes the change.
    pub fn statement(&self) -> (statement: Statement)
        ensures
            statement.sql@ == change_sql(*self),
            statement.numbers@ == change_users(*self),
    {
        let mut numbers: Vec<i32> = Vec::new();
        let sql: &'static str = match self {
            FriendChange::Invite { from, to } => {
                numbers.push(*from);
                numbers.push(*to);
                "INSERT OR IGNORE INTO friends (user_id, friend_id, status) VALUES (?1, ?2, 'pending')"
            },
            FriendChange::Accept { from, to } => {
                numbers.push(*from);
                numbers.push(*to);
                "UPDATE friends SET status = 'accepted' WHERE user_id = ?1 AND friend_id = ?2"
            },
            FriendChange::Befriend { from, to } => {
                numbers.push(*from);
                numbers.push(*to);
                "INSERT OR IGNORE INTO friends (user_id, friend_id, status) VALUES (?1, ?2, 'accepted')"
            },
        };
        assert(numbers@ == change_users(*self));
        Statement { sql, numbers }
    }
}

/// The answer to a request about friends, and what it changes.
#[derive(Debug)]
pub struct FriendDecision {
    pub success: bool,
    pub message: String,
    pub changes: Vec<FriendChange>,
}

/// The query for whom an invitation goes to.
pub fn find_query(username: &str) -> (statement: TextStatement)
    ensures
        statement.sql@ == FIND_SQL@,
        statement.sql@ == "SELECT id FROM users WHERE username = ?1"@,
        statement.bound() == seq![username@],
{
    TextStatement::single(FIND_SQL, username)
}

/// Decides on an invitation, where `found` is the user with the invited name.
pub fn send_friend_request(user_id: i32, found: Option<i32>) -> (decision: FriendDecision)
    ensures
        match found {
            None => {
                &&& !decision.success
                &&& decision.message@ == "Nie znaleziono gracza"@
                &&& decision.changes@ == Seq::<FriendChange>::empty()
            },
            Some(friend_id) => if friend_id == user_id {
                &&& !decision.success
                &&& decision.message@ == "Nie możesz dodać samego siebie"@
                &&& decision.changes@ == Seq::<FriendChange>::empty()
            } else {
                &&& decision.success
                &&& decision.message@ == "Wysłano zaproszenie!"@
                &&& decision.changes@ == seq![FriendChange::Invite { from: user_id, to: friend_id }]
            },
        },
{
    let mut changes: Vec<FriendChange> = Vec::new();
    match found {
        None => FriendDecision {
            success: false,
            message: "Nie znaleziono gracza".to_string(),
            changes,
        },
        Some(friend_id) => {
            if friend_id == user_id {
                return FriendDecision {
                    success: false,
                    message: "Nie możesz dodać samego siebie".to_string(),
                    changes,
                };
            }
            changes.push(FriendChange::Invite { from: user_id, to: friend_id });
            FriendDecision {
                success: true,
                message: "Wysłano zaproszenie!".to_string(),
                changes,
            }
        },
    }
}

/// What accepting an invitation of `friend_id` by `user_id` changes.
pub open spec fn acceptance(user_id: i32, friend_id: i32) -> Seq<FriendChange> {
    seq![
        FriendChange::Accept { from: friend_id, to: user_id },
        FriendChange::Befriend { from: user_id, to: friend_id },
    ]
}

/// Decides on the acceptance of an invitation.
pub fn accept_friend_request(user_id: i32, friend_id: i32) -> (decision: FriendDecision)
    ensures
        decision.success,
        decision.message@ == "Zaakceptowano!"@,
        decision.changes@ == acceptance(user_id, friend_id),
{
    let mut changes: Vec<FriendChange> = Vec::new();
    changes.push(FriendChange::Accept { from: friend_id, to: user_id });
    changes.push(FriendChange::Befriend { from: user_id, to: friend_id });
    FriendDecision { success: true, message: "Zaakceptowano!".to_string(), changes }
}

/// An invitation changes no friendship that there is, and repeating it
/// changes nothing.
pub proof fn lemma_invitation(table: FriendTable, from: i32, to: i32)
    ensures
        ({
            let invite = FriendChange::Invite { from, to };
            let after = changed(table, invite);
            &&& after.contains_key((from, to))
            &&& forall|pair: (i32, i32)| #[trigger]
                table.contains_key(pair) ==> after.contains_key(pair) && after[pair] == table[pair]
            &&& changed(after, invite) == after
        }),
{
}

/// Accepting an invitation makes both users each other's friends, unless the
/// one who accepts has a pending invitation out.
pub proof fn lemma_acceptance(table: FriendTable, user_id: i32, friend_id: i32)
    requires
        table.contains_key((friend_id, user_id)),
        table.contains_key((user_id, friend_id)) ==> table[(user_id, friend_id)]
            == FriendStatus::Accepted || user_id == friend_id,
    ensures
        ({
            let after = all_changed(table, acceptance(user_id, friend_id));
            &&& after.contains_key((friend_id, user_id))
            &&& after[(friend_id, user_id)] == FriendStatus::Accepted
            &&& after.contains_key((user_id, friend_id))
            &&& after[(user_id, friend_id)] == FriendStatus::Accepted
            &&& forall|pair: (i32, i32)|
                pair != (friend_id, user_id) && pair != (user_id, friend_id) ==> (
                #[trigger] after.contains_key(pair) <==> table.contains_key(pair)) && (
                table.contains_key(pair) ==> after[pair] == table[pair])
        }),
{
    let changes = acceptance(user_id, friend_id);
    reveal_with_fuel(all_changed, 3);
    assert(changes.drop_last() == seq![FriendChange::Accept { from: friend_id, to: user_id }]);
    assert(changes.drop_last().drop_last() == Seq::<FriendChange>::empty());
}

/// Whether a user is shown another one, with a status: friends, and those
/// whose invitation waits for an answer.
pub open spec fn is_listed(
    table: FriendTable,
    user_id: i32,
    other: i32,
    status: FriendStatus,
) -> bool {
    match status {
        FriendStatus::Accepted => table.contains_key((user_id, other)) && table[(user_id, other)]
            == FriendStatus::Accepted,
        FriendStatus::Pending => table.contains_key((other, user_id)) && table[(other, user_id)]
            == FriendStatus::Pending,
    }
}

/// A new invitation is shown to the invited user, and to nobody as a
/// friendship; once it is accepted, both are shown each other as friends, and
/// no invitation of either is left.
pub proof fn lemma_invitation_to_friendship(table: FriendTable, user_id: i32, friend_id: i32)
    requires
        user_id != friend_id,
        !table.contains_key((user_id, friend_id)),
        !table.contains_key((friend_id, user_id)),
    ensures
        ({
            let invited = changed(table, FriendChange::Invite { from: user_id, to: friend_id });
            let accepted = all_changed(invited, acceptance(friend_id, user_id));
            &&& is_listed(invited, friend_id, user_id, FriendStatus::Pending)
            &&& !is_listed(invited, friend_id, user_id, FriendStatus::Accepted)
            &&& !is_listed(invited, user_id, friend_id, FriendStatus::Accepted)
            &&& is_listed(accepted, friend_id, user_id, FriendStatus::Accepted)
            &&& is_listed(accepted, user_id, friend_id, FriendStatus::Accepted)
            &&& !is_listed(accepted, friend_id, user_id, FriendStatus::Pending)
            &&& !is_listed(accepted, user_id, friend_id, FriendStatus::Pending)
        }),
{
    let invited = changed(table, FriendChange::Invite { from: user_id, to: friend_id });
    lemma_acceptance(invited, friend_id, user_id);
}

/// The query for whom a user is shown: by number, name, rating and status.
pub fn list_query(user_id: i32) -> (statement: Statement)
    ensures
        statement.sql@ == LIST_SQL@,
        statement.sql@ == "SELECT u.id, u.username, u.elo_1v1, f.status FROM users u JOIN friends f ON u.id = f.friend_id WHERE f.user_id = ?1 AND f.status = 'accepted' UNION SELECT u.id, u.username, u.elo_1v1, f.status FROM users u JOIN friends f ON u.id = f.user_id WHERE f.friend_id = ?1 AND f.status = 'pending'"@,
        statement.numbers@ == seq![user_id],
{
    let mut numbers: Vec<i32> = Vec::new();
    numbers.push(user_id);
    Statement { sql: LIST_SQL, numbers }
}

/// A friend as listed.
#[derive(Debug)]
pub struct FriendInfo {
    pub id: i32,
    pub username: String,
    pub elo_1v1: i32,
    pub status: String,
}

/// The rows that could be read, in their order.
pub open spec fn read_rows(rows: Seq<Option<FriendInfo>>) -> Seq<FriendInfo>
    decreases rows.len(),
{
    if rows.len() == 0 {
        Seq::empty()
    } else {
        match rows.last() {
            Some(row) => read_rows(rows.drop_last()).push(row),
            None => read_rows(rows.drop_last()),
        }
    }
}

/// Whether one row stands before another.
pub open spec fn comes_before(
    rows: Seq<Option<FriendInfo>>,
    first: FriendInfo,
    second: FriendInfo,
) -> bool {
    exists|i: int, j: int|
        0 <= i < j < rows.len() && #[trigger] rows[i] == Some(first) && #[trigger] rows[j] == Some(
            second,
        )
}

/// The rows that could be read are just those, each once and in their order.
pub proof fn lemma_read_rows(rows: Seq<Option<FriendInfo>>)
    ensures
        read_rows(rows).len() <= rows.len(),
        forall|k: int|
            0 <= k < read_rows(rows).len() ==> exists|i: int|
                0 <= i < rows.len() && #[trigger] rows[i] == Some(#[trigger] read_rows(rows)[k]),
        forall|k: int, l: int|
            0 <= k < l < read_rows(rows).len() ==> comes_before(
                rows,
                #[trigger] read_rows(rows)[k],
                #[trigger] read_rows(rows)[l],
            ),
        forall|i: int|
            0 <= i < rows.len() && (#[trigger] rows[i]) is Some ==> read_rows(rows).contains(
                rows[i]->0,
            ),
    decreases rows.len(),
{
    if rows.len() > 0 {
        let fewer = rows.drop_last();
        let last = rows.len() - 1;
        lemma_read_rows(fewer);
        let before = read_rows(fewer);
        let all = read_rows(rows);
        assert forall|k: int| 0 <= k < all.len() implies exists|i: int|
            0 <= i < rows.len() && #[trigger] rows[i] == Some(#[trigger] all[k]) by {
            if k < before.len() {
                assert(all[k] == before[k]);
                let i = choose|i: int|
                    0 <= i < fewer.len() && #[trigger] fewer[i] == Some(before[k]);
                assert(rows[i] == Some(all[k]));
            } else {
                assert(rows[last] == Some(all[k]));
            }
        }
        assert forall|k: int, l: int| 0 <= k < l < all.len() implies comes_before(
            rows,
            #[trigger] all[k],
            #[trigger] all[l],
        ) by {
            assert(all[k] == before[k]);
            if l < before.len() {
                assert(all[l] == before[l]);
                assert(comes_before(fewer, before[k], before[l]));
                let (i, j) = choose|i: int, j: int|
                    0 <= i < j < fewer.len() && #[trigger] fewer[i] == Some(before[k])
                        && #[trigger] fewer[j] == Some(before[l]);
                assert(rows[i] == Some(all[k]) && rows[j] == Some(all[l]));
            } else {
                let i = choose|i: int|
                    0 <= i < fewer.len() && #[trigger] fewer[i] == Some(before[k]);
                assert(rows[i] == Some(all[k]) && rows[last] == Some(all[l]));
            }
        }
        assert forall|i: int| 0 <= i < rows.len() && (#[trigger] rows[i])
            is Some implies all.contains(rows[i]->0) by {
            if i < last {
                assert(fewer[i] == rows[i]);
                let k = choose|k: int| 0 <= k < before.len() && before[k] == rows[i]->0;
                assert(all[k] == rows[i]->0);
            } else {
                assert(all[all.len() - 1] == rows[i]->0);
            }
        }
    }
}

/// The list of friends: the rows that could be read, in their order.
pub fn friends_list(rows: &Vec<Option<FriendInfo>>) -> (friends: Vec<FriendInfo>)
    ensures
        friends@ == read_rows(rows@),
{
    let mut friends: Vec<FriendInfo> = Vec::new();
    let mut i: usize = 0;
    assert(friends@ == read_rows(rows@.take(0)));
    while i < rows.len()
        invariant
            i <= rows@.len(),
            friends@ == read_rows(rows@.take(i as int)),
        decreases rows@.len() - i,
    {
        assert(rows@.take(i + 1).drop_last() == rows@.take(i as int));
        match &rows[i] {
            Some(row) => {
                friends.push(
                    FriendInfo {
                        id: row.id,
                        username: row.username.clone(),
                        elo_1v1: row.elo_1v1,
                        status: row.status.clone(),
                    },
                );
            },
            None => {},
        }
        i = i + 1;
    }
    assert(rows@.take(i as int) == rows@);
    friends
}

/// Whose friends are asked for: the user of that number, or user 0 where
/// there is no number or none that has 32 bits.
pub fn friends_of(user_id: &Option<String>) -> (id: i32)
    ensures
        id == match *user_id {
            Some(text) => match i32_of(text@) {
                Some(id) => id,
                None => 0,
            },
            None => 0,
        },
{
    match user_id {
        Some(text) => match parse_i32(text) {
            Some(id) => id,
            None => 0,
        },
        None => 0,
    }
}

/// A change touches no row but that of its two users, in its direction. An
/// invitation and a friendship only add a row where there is none, pending or
/// accepted; an acceptance only makes a row accepted that there is.
pub proof fn lemma_changes(table: FriendTable, from: i32, to: i32, pair: (i32, i32))
    ensures
        ({
            let invited = changed(table, FriendChange::Invite { from, to });
            let accepted = changed(table, FriendChange::Accept { from, to });
            let befriended = changed(table, FriendChange::Befriend { from, to });
            let there = table.contains_key((from, to));
            &&& pair != (from, to) ==> (invited.contains_key(pair) <==> table.contains_key(pair))
                && (accepted.contains_key(pair) <==> table.contains_key(pair)) && (
            befriended.contains_key(pair) <==> table.contains_key(pair))
            &&& pair != (from, to) && table.contains_key(pair) ==> invited[pair] == table[pair]
                && accepted[pair] == table[pair] && befriended[pair] == table[pair]
            &&& there ==> invited[(from, to)] == table[(from, to)] && befriended[(from, to)]
                == table[(from, to)] && accepted[(from, to)] == FriendStatus::Accepted
            &&& accepted.contains_key((from, to)) <==> there
            &&& invited.contains_key((from, to)) && befriended.contains_key((from, to))
            &&& !there ==> invited[(from, to)] == FriendStatus::Pending && befriended[(from, to)]
                == FriendStatus::Accepted
        }),
{
}

/// Accepting touches only the two rows of both users, and an invitation that
/// was not sent is not made up: without one, only the row of the user who
/// accepts is added.
pub proof fn lemma_acceptance_without_invitation(table: FriendTable, user_id: i32, friend_id: i32)
    requires
        user_id != friend_id,
        !table.contains_key((friend_id, user_id)),
    ensures
        ({
            let after = all_changed(table, acceptance(user_id, friend_id));
            &&& !after.contains_key((friend_id, user_id))
            &&& after.contains_key((user_id, friend_id))
            &&& after[(user_id, friend_id)] == if table.contains_key((user_id, friend_id)) {
                table[(user_id, friend_id)]
            } else {
                FriendStatus::Accepted
            }
            &&& forall|pair: (i32, i32)|
                pair != (user_id, friend_id) ==> (#[trigger] after.contains_key(pair)
                    <==> table.contains_key(pair)) && (table.contains_key(pair) ==> after[pair]
                    == table[pair])
        }),
{
    let changes = acceptance(user_id, friend_id);
    reveal_with_fuel(all_changed, 3);
    assert(changes.drop_last() == seq![FriendChange::Accept { from: friend_id, to: user_id }]);
    assert(changes.drop_last().drop_last() == Seq::<FriendChange>::empty());
}

/// Every change is one statement, bound to its two users in its direction.
pub proof fn lemma_change_statements(from: i32, to: i32)
    ensures
        change_users(FriendChange::Invite { from, to }) == seq![from, to],
        change_users(FriendChange::Accept { from, to }) == seq![from, to],
        change_users(FriendChange::Befriend { from, to }) == seq![from, to],
        change_sql(FriendChange::Invite { from, to })
            == "INSERT OR IGNORE INTO friends (user_id, friend_id, status) VALUES (?1, ?2, 'pending')"@,
        change_sql(FriendChange::Accept { from, to })
            == "UPDATE friends SET status = 'accepted' WHERE user_id = ?1 AND friend_id = ?2"@,
        change_sql(FriendChange::Befriend { from, to })
            == "INSERT OR IGNORE INTO friends (user_id, friend_id, status) VALUES (?1, ?2, 'accepted')"@,
{
}

} // verus!
