//! What the server tells the players of a duel, and the JSON objects that
//! carry it.

use vstd::prelude::*;
use crate::duel::RoundReport;
use crate::ranges::{hand_name, is_range, lemma_names_distinct, RangeAction, RangeCell};

verus! {

/// A message to the players of a duel.
#[derive(Debug)]
pub enum ServerMessage {
    /// The room has no seat left.
    Full,
    /// The room has both its players.
    Ready,
    /// A round has begun.
    RoundStart { hand: String, board: String, pos: String },
    /// A round has been judged.
    RoundResult { report: RoundReport },
    /// A player has left.
    OpponentDisconnected,
}

/// The contents of a message.
pub ghost enum Message {
    Full,
    Ready,
    RoundStart { hand: Seq<char>, board: Seq<char>, pos: Seq<char> },
    RoundResult { report: RoundReport },
    OpponentDisconnected,
}

impl View for ServerMessage {
    type V = Message;

    open spec fn view(&self) -> Message {
        match *self {
            ServerMessage::Full => Message::Full,
            ServerMessage::Ready => Message::Ready,
            ServerMessage::RoundStart { hand, board, pos } => Message::RoundStart {
                hand: hand@,
                board: board@,
                pos: pos@,
            },
            ServerMessage::RoundResult { report } => Message::RoundResult { report },
            ServerMessage::OpponentDisconnected => Message::OpponentDisconnected,
        }
    }
}

/// The value of a field of an object.
#[derive(Debug)]
pub enum Field {
    Text(String),
    Whole(i32),
    Flag(bool),
    Null,
}

/// The contents of a field.
pub ghost enum FieldValue {
    Text(Seq<char>),
    Whole(int),
    Flag(bool),
    Null,
}

impl View for Field {
    type V = FieldValue;

    open spec fn view(&self) -> FieldValue {
        match *self {
            Field::Text(text) => FieldValue::Text(text@),
            Field::Whole(number) => FieldValue::Whole(number as int),
            Field::Flag(flag) => FieldValue::Flag(flag),
            Field::Null => FieldValue::Null,
        }
    }
}

/// `serde_json`'s map from keys to values.
#[verifier::external_type_specification]
#[verifier::external_body]
#[verifier::reject_recursive_types(K)]
#[verifier::reject_recursive_types(V)]
pub struct ExJsonMap<K, V>(serde_json::Map<K, V>);

/// `serde_json`'s value.
#[verifier::external_type_specification]
#[verifier::external_body]
pub struct ExJsonValue(serde_json::Value);

/// The fields that an object holds.
pub uninterp spec fn object_fields(object: serde_json::Map<String, serde_json::Value>) -> Map<
    Seq<char>,
    FieldValue,
>;

/// No fields.
pub open spec fn no_fields() -> Map<Seq<char>, FieldValue> {
    Map::empty()
}

/// The compact JSON text of an object with these fields.
pub uninterp spec fn object_text(fields: Map<Seq<char>, FieldValue>) -> Seq<char>;

/// `serde_json::Map::new`: an object without fields.
#[verifier::external_body]
fn new_object() -> (object: serde_json::Map<String, serde_json::Value>)
    ensures
        object_fields(object) == no_fields(),
{
    serde_json::Map::new()
}

/// `serde_json::Map::insert`: the field has the value afterwards, whether it
/// was there before or not, and the others are as they were. The value is the
/// JSON string, number, truth value or null of the same contents.
#[verifier::external_body]
fn insert_field(
    object: &mut serde_json::Map<String, serde_json::Value>,
    key: &str,
    value: Field,
)
    ensures
        object_fields(*final(object)) == object_fields(*old(object)).insert(key@, value@),
{
    let value = match value {
        Field::Text(text) => serde_json::Value::from(text),
        Field::Whole(number) => serde_json::Value::from(number),
        Field::Flag(flag) => serde_json::Value::from(flag),
        Field::Null => serde_json::Value::Null,
    };
    object.insert(key.to_string(), value);
}

/// `serde_json::Value::to_string` on an object: the compact text. It depends
/// on the fields alone, as the map behind an object is ordered by key.
#[verifier::external_body]
fn render(object: serde_json::Map<String, serde_json::Value>) -> (text: String)
    ensures
        text@ == object_text(object_fields(object)),
{
    serde_json::Value::Object(object).to_string()
}

/// A number, or nothing.
pub open spec fn whole_or_null(number: Option<i32>) -> FieldValue {
    match number {
        Some(number) => FieldValue::Whole(number as int),
        None => FieldValue::Null,
    }
}

/// The fields that tell the result of a round. The loser goes without saying.
pub open spec fn report_fields(report: RoundReport) -> Map<Seq<char>, FieldValue> {
    map![
        "type"@ => FieldValue::Text("round_result"@),
        "p1_id"@ => FieldValue::Whole(report.p1_id as int),
        "p1_hp"@ => FieldValue::Whole(report.p1_hp as int),
        "p1_loss"@ => FieldValue::Whole(report.p1_loss as int),
        "p2_id"@ => FieldValue::Whole(report.p2_id as int),
        "p2_hp"@ => FieldValue::Whole(report.p2_hp as int),
        "p2_loss"@ => FieldValue::Whole(report.p2_loss as int),
        "game_over"@ => FieldValue::Flag(report.game_over),
        "winner_id"@ => whole_or_null(report.winner_id),
    ]
}

/// The fields that carry a message.
pub open spec fn message_fields(message: Message) -> Map<Seq<char>, FieldValue> {
    match message {
        Message::Full => map![
            "type"@ => FieldValue::Text("error"@),
            "msg"@ => FieldValue::Text("Pokój jest pełny"@),
        ],
        Message::Ready => map!["type"@ => FieldValue::Text("ready"@)],
        Message::RoundStart { hand, board, pos } => map![
            "type"@ => FieldValue::Text("round_start"@),
            "hand"@ => FieldValue::Text(hand),
            "board"@ => FieldValue::Text(board),
            "pos"@ => FieldValue::Text(pos),
        ],
        Message::RoundResult { report } => report_fields(report),
        Message::OpponentDisconnected => map![
            "type"@ => FieldValue::Text("opponent_disconnected"@),
        ],
    }
}

fn insert_text(object: &mut serde_json::Map<String, serde_json::Value>, key: &str, text: &str)
    ensures
        object_fields(*final(object)) == object_fields(*old(object)).insert(
            key@,
            FieldValue::Text(text@),
        ),
{
    insert_field(object, key, Field::Text(text.to_string()));
}

/// The object that carries a message.
pub fn message_object(message: &ServerMessage) -> (object: serde_json::Map<
    String,
    serde_json::Value,
>)
    ensures
        object_fields(object) == message_fields(message@),
{
    let mut object = new_object();
    match message {
        ServerMessage::Full => {
            insert_text(&mut object, "type", "error");
            insert_text(&mut object, "msg", "Pokój jest pełny");
        },
        ServerMessage::Ready => {
            insert_text(&mut object, "type", "ready");
        },
        ServerMessage::RoundStart { hand, board, pos } => {
            insert_text(&mut object, "type", "round_start");
            insert_text(&mut object, "hand", hand);
            insert_text(&mut object, "board", board);
            insert_text(&mut object, "pos", pos);
        },
        ServerMessage::RoundResult { report } => {
            insert_text(&mut object, "type", "round_result");
            insert_field(&mut object, "p1_id", Field::Whole(report.p1_id));
            insert_field(&mut object, "p1_hp", Field::Whole(report.p1_hp));
            insert_field(&mut object, "p1_loss", Field::Whole(report.p1_loss));
            insert_field(&mut object, "p2_id", Field::Whole(report.p2_id));
            insert_field(&mut object, "p2_hp", Field::Whole(report.p2_hp));
            insert_field(&mut object, "p2_loss", Field::Whole(report.p2_loss));
            insert_field(&mut object, "game_over", Field::Flag(report.game_over));
            let winner = match report.winner_id {
                Some(winner) => Field::Whole(winner),
                None => Field::Null,
            };
            insert_field(&mut object, "winner_id", winner);
        },
        ServerMessage::OpponentDisconnected => {
            insert_text(&mut object, "type", "opponent_disconnected");
        },
    }
    object
}

/// The text that carries a message.
pub fn encode(message: &ServerMessage) -> (text: String)
    ensures
        text@ == object_text(message_fields(message@)),
{
    render(message_object(message))
}

/// The fields of an answer that says whether a request has succeeded, and why.
pub open spec fn reply_fields(success: bool, message: Seq<char>) -> Map<Seq<char>, FieldValue> {
    map![
        "success"@ => FieldValue::Flag(success),
        "message"@ => FieldValue::Text(message),
    ]
}

/// The object of an answer that says whether a request has succeeded, and why.
pub fn reply_object(success: bool, message: &str) -> (object: serde_json::Map<
    String,
    serde_json::Value,
>)
    ensures
        object_fields(object) == reply_fields(success, message@),
{
    let mut object = new_object();
    insert_field(&mut object, "success", Field::Flag(success));
    insert_text(&mut object, "message", message);
    object
}

/// The object of an answer that says that all is well.
pub fn status_object() -> (object: serde_json::Map<String, serde_json::Value>)
    ensures
        object_fields(object) == map!["status"@ => FieldValue::Text("ok"@)],
{
    let mut object = new_object();
    insert_text(&mut object, "status", "ok");
    object
}

/// The fields that carry a range: the letter of the action under the name of
/// each starting hand.
pub open spec fn range_fields(cells: Seq<RangeCell>) -> Map<Seq<char>, FieldValue>
    decreases cells.len(),
{
    if cells.len() == 0 {
        no_fields()
    } else {
        range_fields(cells.drop_last()).insert(
            cells.last().hand@,
            FieldValue::Text(cells.last().action.code_of()),
        )
    }
}

/// The object that carries a range.
pub fn range_object(cells: &Vec<RangeCell>) -> (object: serde_json::Map<String, serde_json::Value>)
    ensures
        object_fields(object) == range_fields(cells@),
{
    let mut object = new_object();
    let mut i: usize = 0;
    assert(cells@.take(0).len() == 0);
    while i < cells.len()
        invariant
            i <= cells@.len(),
            object_fields(object) == range_fields(cells@.take(i as int)),
        decreases cells@.len() - i,
    {
        assert(cells@.take(i + 1).drop_last() == cells@.take(i as int));
        insert_text(&mut object, &cells[i].hand, cells[i].action.code());
        i = i + 1;
    }
    assert(cells@.take(i as int) == cells@);
    object
}

proof fn lemma_range_prefix(
    cells: Seq<RangeCell>,
    rule: spec_fn(int, int) -> RangeAction,
    count: int,
    k: int,
)
    requires
        is_range(cells, rule),
        0 <= k < count <= 169,
    ensures
        range_fields(cells.take(count)).contains_key(cells[k].hand@),
        range_fields(cells.take(count))[cells[k].hand@] == FieldValue::Text(
            rule(k / 13, k % 13).code_of(),
        ),
    decreases count,
{
    let some = cells.take(count);
    assert(some.drop_last() == cells.take(count - 1));
    assert(some.last() == cells[count - 1]);
    if k < count - 1 {
        lemma_range_prefix(cells, rule, count - 1, k);
        if cells[k].hand@ == cells[count - 1].hand@ {
            lemma_names_distinct(k / 13, k % 13, (count - 1) / 13, (count - 1) % 13);
        }
    }
}

/// The object of a range says of every starting hand what to do with it.
pub proof fn lemma_range_fields(
    cells: Seq<RangeCell>,
    rule: spec_fn(int, int) -> RangeAction,
    row: int,
    column: int,
)
    requires
        is_range(cells, rule),
        0 <= row < 13,
        0 <= column < 13,
    ensures
        range_fields(cells).contains_key(hand_name(row, column)),
        range_fields(cells)[hand_name(row, column)] == FieldValue::Text(
            rule(row, column).code_of(),
        ),
{
    let k = 13 * row + column;
    assert(k / 13 == row && k % 13 == column);
    assert(cells.take(169) == cells);
    lemma_range_prefix(cells, rule, 169, k);
}

/// A range's object has no key but the names of its cells.
pub proof fn lemma_range_keys(cells: Seq<RangeCell>, key: Seq<char>)
    requires
        range_fields(cells).contains_key(key),
    ensures
        exists|k: int| 0 <= k < cells.len() && (#[trigger] cells[k]).hand@ == key,
    decreases cells.len(),
{
    if cells.len() > 0 {
        let last = cells.len() - 1;
        if cells[last].hand@ != key {
            lemma_range_keys(cells.drop_last(), key);
            let k = choose|k: int|
                0 <= k < cells.drop_last().len() && (#[trigger] cells.drop_last()[k]).hand@ == key;
            assert(cells[k].hand@ == key);
        }
    }
}

/// The keys of a round's result are different texts.
proof fn lemma_report_keys()
    ensures
        "type"@ != "p1_id"@ && "type"@ != "p1_hp"@ && "type"@ != "p1_loss"@ && "type"@ != "p2_id"@
            && "type"@ != "p2_hp"@ && "type"@ != "p2_loss"@ && "type"@ != "game_over"@ && "type"@
            != "winner_id"@,
        "p1_id"@ != "p1_hp"@ && "p1_id"@ != "p1_loss"@ && "p1_id"@ != "p2_id"@ && "p1_id"@
            != "p2_hp"@ && "p1_id"@ != "p2_loss"@ && "p1_id"@ != "game_over"@ && "p1_id"@
            != "winner_id"@,
        "p1_hp"@ != "p1_loss"@ && "p1_hp"@ != "p2_id"@ && "p1_hp"@ != "p2_hp"@ && "p1_hp"@
            != "p2_loss"@ && "p1_hp"@ != "game_over"@ && "p1_hp"@ != "winner_id"@,
        "p1_loss"@ != "p2_id"@ && "p1_loss"@ != "p2_hp"@ && "p1_loss"@ != "p2_loss"@ && "p1_loss"@
            != "game_over"@ && "p1_loss"@ != "winner_id"@,
        "p2_id"@ != "p2_hp"@ && "p2_id"@ != "p2_loss"@ && "p2_id"@ != "game_over"@ && "p2_id"@
            != "winner_id"@,
        "p2_hp"@ != "p2_loss"@ && "p2_hp"@ != "game_over"@ && "p2_hp"@ != "winner_id"@,
        "p2_loss"@ != "game_over"@ && "p2_loss"@ != "winner_id"@,
        "game_over"@ != "winner_id"@,
{
    reveal_strlit("type");
    reveal_strlit("p1_id");
    reveal_strlit("p1_hp");
    reveal_strlit("p1_loss");
    reveal_strlit("p2_id");
    reveal_strlit("p2_hp");
    reveal_strlit("p2_loss");
    reveal_strlit("game_over");
    reveal_strlit("winner_id");
    assert("p1_id"@[3] != "p1_hp"@[3] && "p1_id"@[1] != "p2_id"@[1] && "p1_id"@[1] != "p2_hp"@[1]);
    assert("p1_hp"@[1] != "p2_id"@[1] && "p1_hp"@[1] != "p2_hp"@[1]);
    assert("p1_loss"@[1] != "p2_loss"@[1]);
    assert("p2_id"@[3] != "p2_hp"@[3]);
    assert("game_over"@[0] != "winner_id"@[0]);
}

/// The result of a round is told in nine fields: what it is, each player's
/// number, health and loss, whether the duel is over, and the winner's number
/// or null.
pub proof fn lemma_result_fields(report: RoundReport)
    ensures
        ({
            let fields = message_fields(Message::RoundResult { report });
            &&& fields.dom() == set![
                "type"@, "p1_id"@, "p1_hp"@, "p1_loss"@, "p2_id"@, "p2_hp"@, "p2_loss"@,
                "game_over"@, "winner_id"@,
            ]
            &&& fields["type"@] == FieldValue::Text("round_result"@)
            &&& fields["p1_id"@] == FieldValue::Whole(report.p1_id as int)
            &&& fields["p1_hp"@] == FieldValue::Whole(report.p1_hp as int)
            &&& fields["p1_loss"@] == FieldValue::Whole(report.p1_loss as int)
            &&& fields["p2_id"@] == FieldValue::Whole(report.p2_id as int)
            &&& fields["p2_hp"@] == FieldValue::Whole(report.p2_hp as int)
            &&& fields["p2_loss"@] == FieldValue::Whole(report.p2_loss as int)
            &&& fields["game_over"@] == FieldValue::Flag(report.game_over)
            &&& report.winner_id matches Some(winner) ==> fields["winner_id"@]
                == FieldValue::Whole(winner as int)
            &&& report.winner_id is None ==> fields["winner_id"@] == FieldValue::Null
        }),
{
    lemma_report_keys();
    let fields = message_fields(Message::RoundResult { report });
    assert(fields.dom() =~= set![
        "type"@, "p1_id"@, "p1_hp"@, "p1_loss"@, "p2_id"@, "p2_hp"@, "p2_loss"@, "game_over"@,
        "winner_id"@,
    ]);
}

/// The start of a round is told with the spot: hand, board and position, each
/// under its own key. The other messages have nothing to add to what they are,
/// but for the reason why a room could not be entered.
pub proof fn lemma_message_fields(hand: Seq<char>, board: Seq<char>, pos: Seq<char>)
    ensures
        ({
            let fields = message_fields(Message::RoundStart { hand, board, pos });
            &&& fields.dom() == set!["type"@, "hand"@, "board"@, "pos"@]
            &&& fields["type"@] == FieldValue::Text("round_start"@)
            &&& fields["hand"@] == FieldValue::Text(hand)
            &&& fields["board"@] == FieldValue::Text(board)
            &&& fields["pos"@] == FieldValue::Text(pos)
        }),
        ({
            let fields = message_fields(Message::Full);
            &&& fields.dom() == set!["type"@, "msg"@]
            &&& fields["type"@] == FieldValue::Text("error"@)
            &&& fields["msg"@] == FieldValue::Text("Pokój jest pełny"@)
        }),
        message_fields(Message::Ready).dom() == set!["type"@],
        message_fields(Message::Ready)["type"@] == FieldValue::Text("ready"@),
        message_fields(Message::OpponentDisconnected).dom() == set!["type"@],
        message_fields(Message::OpponentDisconnected)["type"@] == FieldValue::Text(
            "opponent_disconnected"@,
        ),
{
    reveal_strlit("type");
    reveal_strlit("hand");
    reveal_strlit("board");
    reveal_strlit("pos");
    reveal_strlit("msg");
    assert("type"@[0] != "hand"@[0]);
    assert("type"@.len() == 4 && "hand"@.len() == 4 && "board"@.len() == 5 && "pos"@.len() == 3);
    assert(message_fields(Message::RoundStart { hand, board, pos }).dom() =~= set![
        "type"@, "hand"@, "board"@, "pos"@,
    ]);
    assert(message_fields(Message::Full).dom() =~= set!["type"@, "msg"@]);
    assert(message_fields(Message::Ready).dom() =~= set!["type"@]);
    assert(message_fields(Message::OpponentDisconnected).dom() =~= set!["type"@]);
}

/// An answer says under two keys whether a request has succeeded, and why.
pub proof fn lemma_reply_fields(success: bool, message: Seq<char>)
    ensures
        reply_fields(success, message).dom() == set!["success"@, "message"@],
        reply_fields(success, message)["success"@] == FieldValue::Flag(success),
        reply_fields(success, message)["message"@] == FieldValue::Text(message),
{
    reveal_strlit("success");
    reveal_strlit("message");
    assert("success"@[0] != "message"@[0]);
    assert(reply_fields(success, message).dom() =~= set!["success"@, "message"@]);
}

/// A field shows the value that it holds, and an object without fields has
/// none.
pub proof fn lemma_field_view(field: Field)
    ensures
        field matches Field::Text(text) ==> field@ == FieldValue::Text(text@),
        field matches Field::Whole(number) ==> field@ == FieldValue::Whole(number as int),
        field matches Field::Flag(flag) ==> field@ == FieldValue::Flag(flag),
        field is Null ==> field@ == FieldValue::Null,
        no_fields().dom() == Set::<Seq<char>>::empty(),
{
}

/// A message shows what it holds: a spot with its hand, board and position, a
/// result with its report.
pub proof fn lemma_message_view(message: ServerMessage)
    ensures
        message is Full <==> message@ is Full,
        message is Ready <==> message@ is Ready,
        message is OpponentDisconnected <==> message@ is OpponentDisconnected,
        message matches ServerMessage::RoundStart { hand, board, pos } ==> message@
            == (Message::RoundStart { hand: hand@, board: board@, pos: pos@ }),
        message matches ServerMessage::RoundResult { report } ==> message@
            == (Message::RoundResult { report }),
{
}

} // verus!
