//! How often to fold, call or raise with a hand of a given strength.

use vstd::prelude::*;
use vstd::string::StrSliceExecFns;
use crate::cards::readable;
use crate::single::{ratio_units, Single};
use crate::strength::{evaluate_poker_strength, strength_units};

verus! {

/// A mixed strategy: the weights of folding, calling, raising a third and
/// raising three quarters of the pot, in hundredths.
#[derive(Clone, Copy, Debug)]
pub struct Strategy {
    pub weights: [u32; 4],
}

impl View for Strategy {
    type V = Seq<u32>;

    open spec fn view(&self) -> Seq<u32> {
        self.weights@
    }
}

/// Four weights of at most a hundred hundredths.
pub open spec fn is_strategy(weights: Seq<u32>) -> bool {
    weights.len() == 4 && forall|i: int| 0 <= i < 4 ==> #[trigger] weights[i] <= 100
}

/// Whether the player faces a bet: before the board after any action, on the
/// board where the last action is one of those written B, S and R.
pub open spec fn facing_bet(board: Seq<char>, history: Seq<char>) -> bool {
    history.len() > 0 && (board.len() == 0 || history.last() == 'B' || history.last() == 'S'
        || history.last() == 'R')
}

/// The strategy for a strength.
pub open spec fn strategy_of(strength: int, facing: bool) -> Seq<u32> {
    if facing {
        if strength < ratio_units(45, 100) {
            seq![90u32, 5, 5, 0]
        } else if strength < ratio_units(65, 100) {
            seq![30u32, 60, 10, 0]
        } else if strength < ratio_units(85, 100) {
            seq![0u32, 60, 30, 10]
        } else {
            seq![0u32, 10, 40, 50]
        }
    } else {
        if strength < ratio_units(45, 100) {
            seq![0u32, 85, 10, 5]
        } else if strength < ratio_units(65, 100) {
            seq![0u32, 65, 25, 10]
        } else if strength < ratio_units(85, 100) {
            seq![0u32, 20, 60, 20]
        } else {
            seq![0u32, 5, 35, 60]
        }
    }
}

/// The strategy of a hand on a board after a history.
pub open spec fn smart_strategy(hand: Seq<char>, board: Seq<char>, history: Seq<char>) -> Seq<u32> {
    strategy_of(strength_units(hand, board), facing_bet(board, history))
}

impl Strategy {
    /// Whether the weights are hundredths of one.
    pub open spec fn wf(self) -> bool {
        is_strategy(self@)
    }
}

/// The strategy for a strength.
pub fn choose_strategy(strength: Single, facing: bool) -> (strategy: Strategy)
    ensures
        strategy@ == strategy_of(strength@, facing),
        strategy.wf(),
{
    let weak = strength.less(Single::ratio(45, 100));
    let medium = strength.less(Single::ratio(65, 100));
    let strong = strength.less(Single::ratio(85, 100));
    let weights: [u32; 4] = if facing {
        if weak {
            [90, 5, 5, 0]
        } else if medium {
            [30, 60, 10, 0]
        } else if strong {
            [0, 60, 30, 10]
        } else {
            [0, 10, 40, 50]
        }
    } else {
        if weak {
            [0, 85, 10, 5]
        } else if medium {
            [0, 65, 25, 10]
        } else if strong {
            [0, 20, 60, 20]
        } else {
            [0, 5, 35, 60]
        }
    };
    assert(weights@ == strategy_of(strength@, facing));
    Strategy { weights }
}

/// The strategy of a hand on a board after a history. The position of the
/// player does not enter into it.
pub fn get_smart_gto_strategy(
    hand: &str,
    board: &str,
    history: &str,
    _position: &str,
) -> (strategy: Strategy)
    requires
        readable(hand@, board@),
    ensures
        strategy@ == smart_strategy(hand@, board@, history@),
        strategy.wf(),
{
    let strength = evaluate_poker_strength(hand, board);
    let actions = history.unicode_len();
    let facing = if actions == 0 {
        false
    } else if board.is_empty() {
        true
    } else {
        let last = history.get_char(actions - 1);
        last == 'B' || last == 'S' || last == 'R'
    };
    choose_strategy(strength, facing)
}

/// The weights of a strategy add up to one, and nobody folds without a bet to
/// fold to.
pub proof fn lemma_strategy_weights(strength: int, facing: bool)
    ensures
        is_strategy(strategy_of(strength, facing)),
        strategy_of(strength, facing)[0] + strategy_of(strength, facing)[1] + strategy_of(
            strength,
            facing,
        )[2] + strategy_of(strength, facing)[3] == 100,
        !facing ==> strategy_of(strength, facing)[0] == 0,
{
}

/// The stronger the hand, the less it folds, the more it raises three quarters
/// of the pot, and the more it raises at all.
pub proof fn lemma_strategy_monotone(weaker: int, stronger: int, facing: bool)
    requires
        weaker <= stronger,
    ensures
        strategy_of(stronger, facing)[0] <= strategy_of(weaker, facing)[0],
        strategy_of(weaker, facing)[3] <= strategy_of(stronger, facing)[3],
        strategy_of(weaker, facing)[2] + strategy_of(weaker, facing)[3] <= strategy_of(
            stronger,
            facing,
        )[2] + strategy_of(stronger, facing)[3],
{
    crate::single::lemma_rounded_monotone(
        45 * crate::single::ONE,
        65 * crate::single::ONE,
        100,
    );
    crate::single::lemma_rounded_monotone(
        65 * crate::single::ONE,
        85 * crate::single::ONE,
        100,
    );
}

/// A question about a spot.
#[derive(Debug)]
pub struct SolveQuery {
    pub hand: String,
    pub board: Option<String>,
    pub pos: Option<String>,
    pub history: Option<String>,
}

/// The answer: how to play, and how strong the hand is.
#[derive(Clone, Copy, Debug)]
pub struct SolveReply {
    pub strategy: Strategy,
    pub equity: Single,
}

/// The text, or the empty one where there is none.
pub open spec fn text_or_empty(text: Option<String>) -> Seq<char> {
    match text {
        Some(text) => text@,
        None => Seq::empty(),
    }
}

/// The text, or the empty one where there is none.
pub fn or_empty(text: &Option<String>) -> (result: String)
    ensures
        result@ == text_or_empty(*text),
{
    match text {
        Some(text) => text.clone(),
        None => String::new(),
    }
}

/// Answers a question about a spot.
pub fn solve(query: &SolveQuery) -> (reply: SolveReply)
    requires
        readable(query.hand@, text_or_empty(query.board)),
    ensures
        reply.strategy@ == smart_strategy(
            query.hand@,
            text_or_empty(query.board),
            text_or_empty(query.history),
        ),
        reply.strategy.wf(),
        reply.equity@ == strength_units(query.hand@, text_or_empty(query.board)),
        reply.equity.wf(),
{
    let board = or_empty(&query.board);
    let pos = or_empty(&query.pos);
    let history = or_empty(&query.history);
    SolveReply {
        strategy: get_smart_gto_strategy(&query.hand, &board, &history, &pos),
        equity: evaluate_poker_strength(&query.hand, &board),
    }
}

/// Four weights, each at most a hundred, are a strategy, and nothing else is.
pub proof fn lemma_is_strategy(weights: Seq<u32>)
    ensures
        is_strategy(weights) <==> weights.len() == 4 && weights[0] <= 100 && weights[1] <= 100
            && weights[2] <= 100 && weights[3] <= 100,
{
}

/// Before the board it only matters whether anybody has acted, not how: after
/// any action the strategy is the same, and a weak hand folds nine times in
/// ten, a medium one three times in ten. Where nobody has acted, nobody folds.
pub proof fn lemma_history_before_the_board(
    hand: Seq<char>,
    history: Seq<char>,
    other: Seq<char>,
)
    requires
        history.len() > 0,
        other.len() > 0,
    ensures
        ({
            let none = Seq::<char>::empty();
            let strength = strength_units(hand, none);
            let after = smart_strategy(hand, none, history);
            &&& after == smart_strategy(hand, none, other)
            &&& strength < ratio_units(45, 100) ==> after[0] == 90
            &&& ratio_units(45, 100) <= strength < ratio_units(65, 100) ==> after[0] == 30
            &&& ratio_units(65, 100) <= strength ==> after[0] == 0
            &&& smart_strategy(hand, none, none)[0] == 0
        }),
{
    crate::single::lemma_rounded_monotone(45 * crate::single::ONE, 65 * crate::single::ONE, 100);
    crate::single::lemma_rounded_monotone(65 * crate::single::ONE, 85 * crate::single::ONE, 100);
}

/// On a board only the last action matters: B, S and R are bets to face, after
/// which a weak hand folds nine times in ten and a medium one three times in
/// ten; after any other action the strategy is the one where nobody has acted,
/// and nobody folds.
pub proof fn lemma_history_on_a_board(hand: Seq<char>, board: Seq<char>, history: Seq<char>)
    requires
        board.len() > 0,
        history.len() > 0,
    ensures
        ({
            let last = history[history.len() - 1];
            let strength = strength_units(hand, board);
            let after = smart_strategy(hand, board, history);
            &&& last == 'B' || last == 'S' || last == 'R' ==> {
                &&& after == smart_strategy(hand, board, seq!['B'])
                &&& strength < ratio_units(45, 100) ==> after[0] == 90
                &&& ratio_units(45, 100) <= strength < ratio_units(65, 100) ==> after[0] == 30
                &&& ratio_units(65, 100) <= strength ==> after[0] == 0
            }
            &&& last != 'B' && last != 'S' && last != 'R' ==> after == smart_strategy(
                hand,
                board,
                Seq::empty(),
            ) && after[0] == 0
        }),
{
    crate::single::lemma_rounded_monotone(45 * crate::single::ONE, 65 * crate::single::ONE, 100);
    crate::single::lemma_rounded_monotone(65 * crate::single::ONE, 85 * crate::single::ONE, 100);
}

/// How to play a spot, in hundredths, by whether there is a bet to face and by
/// how strong the hand is: below 0.45, 0.65 and 0.85, and above.
pub proof fn lemma_spots(hand: Seq<char>, board: Seq<char>, history: Seq<char>)
    ensures
        ({
            let strength = strength_units(hand, board);
            let last = history[history.len() - 1];
            let faced = history.len() > 0 && (board.len() == 0 || last == 'B' || last == 'S'
                || last == 'R');
            let weak = strength < ratio_units(45, 100);
            let medium = !weak && strength < ratio_units(65, 100);
            let strong = !weak && !medium && strength < ratio_units(85, 100);
            let best = !weak && !medium && !strong;
            let play = smart_strategy(hand, board, history);
            &&& play.len() == 4
            &&& play[0] + play[1] + play[2] + play[3] == 100
            &&& faced && weak ==> play[0] == 90 && play[1] == 5 && play[2] == 5
            &&& faced && medium ==> play[0] == 30 && play[1] == 60 && play[2] == 10
            &&& faced && strong ==> play[0] == 0 && play[1] == 60 && play[2] == 30
            &&& faced && best ==> play[0] == 0 && play[1] == 10 && play[2] == 40
            &&& !faced && weak ==> play[0] == 0 && play[1] == 85 && play[2] == 10
            &&& !faced && medium ==> play[0] == 0 && play[1] == 65 && play[2] == 25
            &&& !faced && strong ==> play[0] == 0 && play[1] == 20 && play[2] == 60
            &&& !faced && best ==> play[0] == 0 && play[1] == 5 && play[2] == 35
        }),
{
}

/// A stronger hand in the same spot folds no more, and raises no less.
pub proof fn lemma_stronger_hands_raise(
    weaker: Seq<char>,
    stronger: Seq<char>,
    board: Seq<char>,
    history: Seq<char>,
)
    requires
        strength_units(weaker, board) <= strength_units(stronger, board),
    ensures
        smart_strategy(stronger, board, history)[0] <= smart_strategy(weaker, board, history)[0],
        smart_strategy(weaker, board, history)[3] <= smart_strategy(stronger, board, history)[3],
        smart_strategy(weaker, board, history)[2] + smart_strategy(weaker, board, history)[3]
            <= smart_strategy(stronger, board, history)[2] + smart_strategy(
            stronger,
            board,
            history,
        )[3],
{
    lemma_strategy_monotone(
        strength_units(weaker, board),
        strength_units(stronger, board),
        facing_bet(board, history),
    );
}

/// A text that is there is taken as it is, and a missing one as the empty one.
pub proof fn lemma_text_or_empty(text: Option<String>)
    ensures
        text matches Some(found) ==> text_or_empty(text) == found@,
        text is None ==> text_or_empty(text).len() == 0,
{
}

/// A strategy shows the weights that it holds, in their order.
pub proof fn lemma_strategy_view(strategy: Strategy)
    ensures
        strategy@ == strategy.weights@,
        strategy.wf() <==> strategy.weights@[0] <= 100 && strategy.weights@[1] <= 100
            && strategy.weights@[2] <= 100 && strategy.weights@[3] <= 100,
{
}

} // verus!
