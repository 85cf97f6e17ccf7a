//! Opening ranges before the board: which of the 169 starting hands to raise,
//! call or fold, first to act and on the button.

use vstd::prelude::*;
use vstd::string::StringExecFns;

verus! {

/// What to do with a starting hand.
#[derive(Clone, Copy, Debug, PartialEq, Eq, Structural)]
pub enum RangeAction {
    Raise,
    Call,
    Fold,
}

/// A starting hand and what to do with it.
#[derive(Debug)]
pub struct RangeCell {
    pub hand: String,
    pub action: RangeAction,
}

/// The ranges of the first player to act and of the button. Each holds one
/// cell per starting hand, row by row.
#[derive(Debug)]
pub struct PreflopRanges {
    pub utg: Vec<RangeCell>,
    pub btn: Vec<RangeCell>,
}

/// The letter of a row or a column: from the ace, 0, to the deuce, 12.
pub open spec fn letter(line: int) -> char {
    seq!['A', 'K', 'Q', 'J', 'T', '9', '8', '7', '6', '5', '4', '3', '2'][line]
}

/// The name of the starting hand in a cell: pairs on the diagonal, suited
/// hands above it, offsuit hands below it, the higher rank first.
pub open spec fn hand_name(row: int, column: int) -> Seq<char> {
    if row == column {
        seq![letter(row), letter(column)]
    } else if row < column {
        seq![letter(row), letter(column), 's']
    } else {
        seq![letter(column), letter(row), 'o']
    }
}

/// What the first player to act does: raises eights and better pairs, the
/// best suited broadways and the two best offsuit aces.
pub open spec fn utg_action(row: int, column: int) -> RangeAction {
    let name = hand_name(row, column);
    if row == column && row <= 6 {
        RangeAction::Raise
    } else if name == seq!['A', 'K', 's'] || name == seq!['A', 'Q', 's'] || name == seq![
        'A',
        'J',
        's',
    ] || name == seq!['K', 'Q', 's'] {
        RangeAction::Raise
    } else if name == seq!['A', 'K', 'o'] || name == seq!['A', 'Q', 'o'] {
        RangeAction::Raise
    } else {
        RangeAction::Fold
    }
}

/// What the button does: raises every pair, every ace, suited or not, the tens
/// and higher ranks among themselves and suited hands with at most one rank
/// between them, down to the six.
pub open spec fn btn_action(row: int, column: int) -> RangeAction {
    let name = hand_name(row, column);
    if row == column {
        RangeAction::Raise
    } else if row == 0 || column == 0 {
        RangeAction::Raise
    } else if (row < 5 && column < 5) || (name.contains('s') && row <= 8 && column - row <= 2) {
        RangeAction::Raise
    } else if name == seq!['K', 'J', 'o'] || name == seq!['Q', 'J', 'o'] {
        RangeAction::Call
    } else {
        RangeAction::Fold
    }
}

/// Whether a list of cells is the range that `rule` gives.
pub open spec fn is_range(cells: Seq<RangeCell>, rule: spec_fn(int, int) -> RangeAction) -> bool {
    &&& cells.len() == 169
    &&& forall|k: int|
        0 <= k < 169 ==> (#[trigger] cells[k]).hand@ == hand_name(k / 13, k % 13)
            && cells[k].action == rule(k / 13, k % 13)
}

/// When a starting hand has a name of three letters.
proof fn lemma_names(row: int, column: int, high: char, low: char)
    requires
        0 <= row < 13,
        0 <= column < 13,
    ensures
        hand_name(row, column) == seq![high, low, 's'] <==> row < column && letter(row) == high
            && letter(column) == low,
        hand_name(row, column) == seq![high, low, 'o'] <==> row > column && letter(column) == high
            && letter(row) == low,
        hand_name(row, column).contains('s') <==> row < column,
{
    let name = hand_name(row, column);
    if name == seq![high, low, 's'] {
        assert(name.len() == 3 && name[0] == high && name[1] == low && name[2] == 's');
    }
    if name == seq![high, low, 'o'] {
        assert(name.len() == 3 && name[0] == high && name[1] == low && name[2] == 'o');
    }
    if row < column {
        assert(name[2] == 's');
    }
}

/// No two cells hold the same starting hand.
pub proof fn lemma_names_distinct(row: int, column: int, other_row: int, other_column: int)
    requires
        0 <= row < 13,
        0 <= column < 13,
        0 <= other_row < 13,
        0 <= other_column < 13,
        hand_name(row, column) == hand_name(other_row, other_column),
    ensures
        row == other_row,
        column == other_column,
{
    let name = hand_name(row, column);
    let other = hand_name(other_row, other_column);
    assert(name.len() == other.len());
    assert(name[0] == other[0] && name[1] == other[1]);
    if name.len() == 3 {
        assert(name[2] == other[2]);
    }
}

/// The button raises whatever the first player to act raises.
pub proof fn lemma_button_is_wider(row: int, column: int)
    requires
        0 <= row < 13,
        0 <= column < 13,
        utg_action(row, column) == RangeAction::Raise,
    ensures
        btn_action(row, column) == RangeAction::Raise,
{
    lemma_names(row, column, 'A', 'K');
    lemma_names(row, column, 'A', 'Q');
    lemma_names(row, column, 'A', 'J');
    lemma_names(row, column, 'K', 'Q');
}

/// The button raises every ace, suited or not.
pub proof fn lemma_button_raises_aces(rank: int)
    requires
        1 <= rank < 13,
    ensures
        hand_name(0, rank) == seq!['A', letter(rank), 's'],
        btn_action(0, rank) == RangeAction::Raise,
        hand_name(rank, 0) == seq!['A', letter(rank), 'o'],
        btn_action(rank, 0) == RangeAction::Raise,
{
}

/// Nobody opens with a call.
pub proof fn lemma_no_calls(row: int, column: int)
    requires
        0 <= row < 13,
        0 <= column < 13,
    ensures
        utg_action(row, column) != RangeAction::Call,
        btn_action(row, column) != RangeAction::Call,
{
    lemma_names(row, column, 'K', 'J');
    lemma_names(row, column, 'Q', 'J');
}

impl RangeAction {
    /// The letter that stands for the action.
    pub open spec fn code_of(self) -> Seq<char> {
        match self {
            RangeAction::Raise => "R"@,
            RangeAction::Call => "C"@,
            RangeAction::Fold => "F"@,
        }
    }

    /// The letter that stands for the action.
    pub fn code(self) -> (code: &'static str)
        ensures
            code@ == self.code_of(),
    {
        match self {
            RangeAction::Raise => "R",
            RangeAction::Call => "C",
            RangeAction::Fold => "F",
        }
    }
}

fn letter_at(line: usize) -> (found: char)
    requires
        line < 13,
    ensures
        found == letter(line as int),
{
    let letters: [char; 13] = [
        'A', 'K', 'Q', 'J', 'T', '9', '8', '7', '6', '5', '4', '3', '2',
    ];
    letters[line]
}

fn letter_text(line: usize) -> (text: &'static str)
    requires
        line < 13,
    ensures
        text@ == seq![letter(line as int)],
{
    proof {
        reveal_strlit("A");
        reveal_strlit("K");
        reveal_strlit("Q");
        reveal_strlit("J");
        reveal_strlit("T");
        reveal_strlit("9");
        reveal_strlit("8");
        reveal_strlit("7");
        reveal_strlit("6");
        reveal_strlit("5");
        reveal_strlit("4");
        reveal_strlit("3");
        reveal_strlit("2");
    }
    match line {
        0 => "A",
        1 => "K",
        2 => "Q",
        3 => "J",
        4 => "T",
        5 => "9",
        6 => "8",
        7 => "7",
        8 => "6",
        9 => "5",
        10 => "4",
        11 => "3",
        _ => "2",
    }
}

/// The name of the starting hand in a cell.
pub fn name_hand(row: usize, column: usize) -> (name: String)
    requires
        row < 13,
        column < 13,
    ensures
        name@ == hand_name(row as int, column as int),
{
    proof {
        reveal_strlit("s");
        reveal_strlit("o");
    }
    let mut name = String::new();
    if row <= column {
        name.append(letter_text(row));
        name.append(letter_text(column));
        if row < column {
            name.append("s");
        }
    } else {
        name.append(letter_text(column));
        name.append(letter_text(row));
        name.append("o");
    }
    assert(name@ == hand_name(row as int, column as int));
    name
}

/// What the first player to act does.
pub fn utg_choice(row: usize, column: usize) -> (action: RangeAction)
    requires
        row < 13,
        column < 13,
    ensures
        action == utg_action(row as int, column as int),
{
    proof {
        lemma_names(row as int, column as int, 'A', 'K');
        lemma_names(row as int, column as int, 'A', 'Q');
        lemma_names(row as int, column as int, 'A', 'J');
        lemma_names(row as int, column as int, 'K', 'Q');
    }
    let across = letter_at(row);
    let down = letter_at(column);
    let pair = row == column && row <= 6;
    let suited = row < column && ((across == 'A' && (down == 'K' || down == 'Q' || down == 'J'))
        || (across == 'K' && down == 'Q'));
    let offsuit = row > column && down == 'A' && (across == 'K' || across == 'Q');
    if pair || suited || offsuit {
        RangeAction::Raise
    } else {
        RangeAction::Fold
    }
}

/// What the button does.
pub fn btn_choice(row: usize, column: usize) -> (action: RangeAction)
    requires
        row < 13,
        column < 13,
    ensures
        action == btn_action(row as int, column as int),
{
    proof {
        lemma_names(row as int, column as int, 'K', 'J');
        lemma_names(row as int, column as int, 'Q', 'J');
    }
    let across = letter_at(row);
    let down = letter_at(column);
    if row == column || row == 0 || column == 0 {
        RangeAction::Raise
    } else if (row < 5 && column < 5) || (row < column && row <= 8 && column - row <= 2) {
        RangeAction::Raise
    } else if row > column && across == 'J' && (down == 'K' || down == 'Q') {
        RangeAction::Call
    } else {
        RangeAction::Fold
    }
}

/// The opening ranges.
pub fn preflop_ranges() -> (ranges: PreflopRanges)
    ensures
        is_range(ranges.utg@, |row: int, column: int| utg_action(row, column)),
        is_range(ranges.btn@, |row: int, column: int| btn_action(row, column)),
{
    let mut utg: Vec<RangeCell> = Vec::new();
    let mut btn: Vec<RangeCell> = Vec::new();
    let mut cell: usize = 0;
    while cell < 169
        invariant
            cell <= 169,
            utg@.len() == cell,
            btn@.len() == cell,
            forall|k: int|
                0 <= k < cell ==> (#[trigger] utg@[k]).hand@ == hand_name(k / 13, k % 13)
                    && utg@[k].action == utg_action(k / 13, k % 13),
            forall|k: int|
                0 <= k < cell ==> (#[trigger] btn@[k]).hand@ == hand_name(k / 13, k % 13)
                    && btn@[k].action == btn_action(k / 13, k % 13),
        decreases 169 - cell,
    {
        let row = cell / 13;
        let column = cell % 13;
        utg.push(RangeCell { hand: name_hand(row, column), action: utg_choice(row, column) });
        btn.push(RangeCell { hand: name_hand(row, column), action: btn_choice(row, column) });
        cell = cell + 1;
    }
    PreflopRanges { utg, btn }
}

/// The lines run from the ace down: each letter stands for the rank that is as
/// far below the ace as the line is from the first.
pub proof fn lemma_letters(line: int)
    requires
        0 <= line < 13,
    ensures
        crate::cards::rank_of(letter(line)) == 12 - line,
{
}

/// The name of a cell has the ranks of its two lines, the higher one first. A
/// pair has no third letter; a suited hand ends in an s and an offsuit one in
/// an o, and the two lie on different sides of the pairs.
pub proof fn lemma_hand_names(row: int, column: int)
    requires
        0 <= row < 13,
        0 <= column < 13,
    ensures
        ({
            let name = hand_name(row, column);
            let high = crate::cards::rank_of(name[0]);
            let low = crate::cards::rank_of(name[1]);
            &&& name.len() == if row == column {
                2int
            } else {
                3
            }
            &&& high >= low
            &&& row <= column ==> high == 12 - row && low == 12 - column
            &&& row > column ==> high == 12 - column && low == 12 - row
            &&& row < column ==> name[2] == 's'
            &&& row > column ==> name[2] == 'o'
        }),
{
    lemma_letters(row);
    lemma_letters(column);
}

/// The first player to act raises just these: pairs of eights and better, the
/// ace with king, queen or jack and the king with queen of one suit, and the
/// ace with king or queen of two. All other hands are folded.
pub proof fn lemma_first_raises(row: int, column: int)
    requires
        0 <= row < 13,
        0 <= column < 13,
    ensures
        ({
            let raised = utg_action(row, column) == RangeAction::Raise;
            let rank = 12 - row;
            &&& row == column ==> (raised <==> rank >= 6)
            &&& row < column ==> (raised <==> (row == 0 && column <= 3) || (row == 1 && column
                == 2))
            &&& row > column ==> (raised <==> column == 0 && row <= 2)
            &&& !raised ==> utg_action(row, column) == RangeAction::Fold
        }),
{
    lemma_names(row, column, 'A', 'K');
    lemma_names(row, column, 'A', 'Q');
    lemma_names(row, column, 'A', 'J');
    lemma_names(row, column, 'K', 'Q');
}

/// The button raises just these: every pair; every ace; two ranks from the ten
/// up; and, of one suit, two ranks with at most one between them, where the
/// higher one is a six or better. All other hands are folded.
pub proof fn lemma_button_raises(row: int, column: int)
    requires
        0 <= row < 13,
        0 <= column < 13,
    ensures
        ({
            let raised = btn_action(row, column) == RangeAction::Raise;
            &&& row == column ==> raised
            &&& row == 0 || column == 0 ==> raised
            &&& row <= 4 && column <= 4 ==> raised
            &&& row < column <= row + 2 && row <= 8 ==> raised
            &&& raised ==> row == column || row == 0 || column == 0 || (row <= 4 && column <= 4)
                || (row < column <= row + 2 && row <= 8)
            &&& !raised ==> btn_action(row, column) == RangeAction::Fold
        }),
{
    lemma_names(row, column, 'K', 'J');
    lemma_names(row, column, 'Q', 'J');
}

/// No hand is folded whose two ranks are both at least as high as those of a
/// hand that is raised, of the same kind: pairs, one suit, or two. On the
/// button the two hands also have to be of the same gap, since it raises some
/// low neighbours of one suit.
pub proof fn lemma_higher_ranks_are_raised(row: int, column: int, other_row: int, other_column: int)
    requires
        0 <= row <= other_row < 13,
        0 <= column <= other_column < 13,
        row == column <==> other_row == other_column,
        row < column <==> other_row < other_column,
    ensures
        utg_action(other_row, other_column) == RangeAction::Raise ==> utg_action(row, column)
            == RangeAction::Raise,
        btn_action(other_row, other_column) == RangeAction::Raise && column - row == other_column
            - other_row ==> btn_action(row, column) == RangeAction::Raise,
{
    lemma_first_raises(row, column);
    lemma_first_raises(other_row, other_column);
    lemma_button_raises(row, column);
    lemma_button_raises(other_row, other_column);
}

/// One suit makes no hand worse: where the offsuit hand of two ranks is raised,
/// so is the suited one.
pub proof fn lemma_one_suit_is_no_worse(high: int, low: int)
    requires
        0 <= high < low < 13,
    ensures
        utg_action(low, high) == RangeAction::Raise ==> utg_action(high, low)
            == RangeAction::Raise,
        btn_action(low, high) == RangeAction::Raise ==> btn_action(high, low)
            == RangeAction::Raise,
{
    lemma_first_raises(low, high);
    lemma_first_raises(high, low);
    lemma_button_raises(low, high);
    lemma_button_raises(high, low);
}

/// A range says of every starting hand, in the cell of its two lines, its name
/// and what the rule does with it, and holds nothing else.
pub proof fn lemma_range_cells(
    cells: Seq<RangeCell>,
    rule: spec_fn(int, int) -> RangeAction,
    row: int,
    column: int,
)
    requires
        is_range(cells, rule),
        0 <= row < 13,
        0 <= column < 13,
    ensures
        cells.len() == 169,
        cells[13 * row + column].hand@ == hand_name(row, column),
        cells[13 * row + column].action == rule(row, column),
{
    let k = 13 * row + column;
    assert(k / 13 == row && k % 13 == column);
    assert(cells[k].hand@ == hand_name(k / 13, k % 13));
}

/// The letters of the three actions are R, C and F.
pub proof fn lemma_codes()
    ensures
        RangeAction::Raise.code_of() == seq!['R'],
        RangeAction::Call.code_of() == seq!['C'],
        RangeAction::Fold.code_of() == seq!['F'],
{
    reveal_strlit("R");
    reveal_strlit("C");
    reveal_strlit("F");
}

} // verus!
