//! What is handed to the database.

use vstd::prelude::*;

verus! {

/// The table of accounts. A name is there once, and a new account starts with
/// three ratings of a thousand.
pub const USERS_SCHEMA: &'static str = "CREATE TABLE IF NOT EXISTS users (id INTEGER PRIMARY KEY AUTOINCREMENT, username TEXT UNIQUE NOT NULL, password TEXT NOT NULL, elo_train INTEGER NOT NULL DEFAULT 1000, elo_1v1 INTEGER NOT NULL DEFAULT 1000, elo_1v7 INTEGER NOT NULL DEFAULT 1000, streak INTEGER NOT NULL DEFAULT 0, hands_played INTEGER NOT NULL DEFAULT 0)";

/// The table of shared statistics.
pub const STATS_SCHEMA: &'static str = "CREATE TABLE IF NOT EXISTS stats (id INTEGER PRIMARY KEY, elo_train INTEGER NOT NULL DEFAULT 1000, elo_1v1 INTEGER NOT NULL DEFAULT 1000, elo_1v7 INTEGER NOT NULL DEFAULT 1000, streak INTEGER NOT NULL DEFAULT 0, hands_played INTEGER NOT NULL DEFAULT 0)";

/// The table of friendships, one row for each pair of users.
pub const FRIENDS_SCHEMA: &'static str = "CREATE TABLE IF NOT EXISTS friends (id INTEGER PRIMARY KEY AUTOINCREMENT, user_id INTEGER NOT NULL, friend_id INTEGER NOT NULL, status TEXT NOT NULL DEFAULT 'pending', UNIQUE(user_id, friend_id))";

/// How many rows of shared statistics there are.
pub const COUNT_SQL: &'static str = "SELECT COUNT(*) FROM stats";

/// The first row of shared statistics.
pub const SEED_SQL: &'static str = "INSERT INTO stats (id, elo_train, elo_1v1, elo_1v7, streak, hands_played) VALUES (1, 1000, 1000, 1000, 0, 0)";

/// A statement for the database, and the numbers to bind to it.
#[derive(Debug)]
pub struct Statement {
    pub sql: &'static str,
    pub numbers: Vec<i32>,
}

/// A statement for the database, and the numbers of 64 bits to bind to it.
#[derive(Debug)]
pub struct WideStatement {
    pub sql: &'static str,
    pub numbers: Vec<i64>,
}

/// A statement for the database, and the texts to bind to it.
#[derive(Debug)]
pub struct TextStatement {
    pub sql: &'static str,
    pub texts: Vec<String>,
}

impl Statement {
    /// A statement that nothing is bound to.
    pub fn plain(sql: &'static str) -> (statement: Statement)
        ensures
            statement.sql@ == sql@,
            statement.numbers@ == Seq::<i32>::empty(),
    {
        Statement { sql, numbers: Vec::new() }
    }
}

impl TextStatement {
    /// The texts that are bound.
    pub open spec fn bound(self) -> Seq<Seq<char>> {
        self.texts@.map_values(|text: String| text@)
    }

    /// A statement that one text is bound to.
    pub fn single(sql: &'static str, text: &str) -> (statement: TextStatement)
        ensures
            statement.sql@ == sql@,
            statement.bound() == seq![text@],
    {
        let mut texts: Vec<String> = Vec::new();
        texts.push(text.to_string());
        let statement = TextStatement { sql, texts };
        assert(statement.bound() == seq![text@]);
        statement
    }

    /// A statement that two texts are bound to.
    pub fn pair(sql: &'static str, first: &str, second: &str) -> (statement: TextStatement)
        ensures
            statement.sql@ == sql@,
            statement.bound() == seq![first@, second@],
    {
        let mut texts: Vec<String> = Vec::new();
        texts.push(first.to_string());
        texts.push(second.to_string());
        let statement = TextStatement { sql, texts };
        assert(statement.bound() == seq![first@, second@]);
        statement
    }
}

/// The statements that make the tables where they are missing.
pub fn schema() -> (statements: Vec<Statement>)
    ensures
        statements@.len() == 3,
        statements@[0].sql@ == USERS_SCHEMA@,
        statements@[0].sql@ == "CREATE TABLE IF NOT EXISTS users (id INTEGER PRIMARY KEY AUTOINCREMENT, username TEXT UNIQUE NOT NULL, password TEXT NOT NULL, elo_train INTEGER NOT NULL DEFAULT 1000, elo_1v1 INTEGER NOT NULL DEFAULT 1000, elo_1v7 INTEGER NOT NULL DEFAULT 1000, streak INTEGER NOT NULL DEFAULT 0, hands_played INTEGER NOT NULL DEFAULT 0)"@,
        statements@[1].sql@ == STATS_SCHEMA@,
        statements@[1].sql@ == "CREATE TABLE IF NOT EXISTS stats (id INTEGER PRIMARY KEY, elo_train INTEGER NOT NULL DEFAULT 1000, elo_1v1 INTEGER NOT NULL DEFAULT 1000, elo_1v7 INTEGER NOT NULL DEFAULT 1000, streak INTEGER NOT NULL DEFAULT 0, hands_played INTEGER NOT NULL DEFAULT 0)"@,
        statements@[2].sql@ == FRIENDS_SCHEMA@,
        statements@[2].sql@ == "CREATE TABLE IF NOT EXISTS friends (id INTEGER PRIMARY KEY AUTOINCREMENT, user_id INTEGER NOT NULL, friend_id INTEGER NOT NULL, status TEXT NOT NULL DEFAULT 'pending', UNIQUE(user_id, friend_id))"@,
        forall|i: int| 0 <= i < 3 ==> (#[trigger] statements@[i]).numbers@ == Seq::<i32>::empty(),
{
    let mut statements: Vec<Statement> = Vec::new();
    statements.push(Statement::plain(USERS_SCHEMA));
    statements.push(Statement::plain(STATS_SCHEMA));
    statements.push(Statement::plain(FRIENDS_SCHEMA));
    statements
}

/// Whether the first row of shared statistics is missing, where there are
/// that many rows.
pub open spec fn lacks_row(rows: int) -> bool {
    rows == 0
}

/// Whether the shared row of statistics has to be stored first, where the
/// table holds that many rows.
pub fn needs_stats_row(rows: i32) -> (needed: bool)
    ensures
        needed == lacks_row(rows as int),
{
    rows == 0
}

/// The query of how many rows of shared statistics there are.
pub fn count_query() -> (statement: Statement)
    ensures
        statement.sql@ == COUNT_SQL@,
        statement.sql@ == "SELECT COUNT(*) FROM stats"@,
        statement.numbers@ == Seq::<i32>::empty(),
{
    Statement::plain(COUNT_SQL)
}

/// What is left to do once the tables are there and the rows are counted: the
/// first row of shared statistics, if it is missing.
pub fn seed(rows: i32) -> (statements: Vec<Statement>)
    ensures
        statements@.len() == if lacks_row(rows as int) {
            1int
        } else {
            0
        },
        lacks_row(rows as int) ==> statements@[0].sql@ == SEED_SQL@ && statements@[0].numbers@
            == Seq::<i32>::empty(),
        rows == 0 ==> statements@.len() == 1 && statements@[0].sql@
            == "INSERT INTO stats (id, elo_train, elo_1v1, elo_1v7, streak, hands_played) VALUES (1, 1000, 1000, 1000, 0, 0)"@,
        rows != 0 ==> statements@.len() == 0,
{
    let mut statements: Vec<Statement> = Vec::new();
    if needs_stats_row(rows) {
        statements.push(Statement::plain(SEED_SQL));
    }
    statements
}

/// The first row of shared statistics is missing just where there is no row.
pub proof fn lemma_lacks_row(rows: int)
    ensures
        lacks_row(rows) <==> rows == 0,
{
}

/// A statement's texts are bound in their order.
pub proof fn lemma_bound(statement: TextStatement, i: int)
    requires
        0 <= i < statement.texts@.len(),
    ensures
        statement.bound().len() == statement.texts@.len(),
        statement.bound()[i] == statement.texts@[i]@,
{
}

} // verus!
