//! Cards as the clients write them, and what two hole cards make of a board.

use vstd::prelude::*;
use vstd::string::StrSliceExecFns;

verus! {

/// A card: its rank, from 0 for a deuce to 12 for an ace, and the letter of
/// its suit.
#[derive(Clone, Copy, Debug, PartialEq, Eq, Structural)]
pub struct Card {
    pub rank: u32,
    pub suit: char,
}

/// What a hand is worth on a board, from the strongest holding down.
#[derive(Clone, Copy, Debug, PartialEq, Eq, Structural)]
pub enum Holding {
    Flush,
    Straight,
    Trips,
    TwoPair,
    Overpair,
    TopPair,
    FlushDraw,
    MiddlePair,
    StraightDraw,
    Underpair,
    LowPair,
    HighCard,
    Nothing,
}

/// The rank that a letter stands for; an unknown letter stands for a deuce.
pub open spec fn rank_of(letter: char) -> u32 {
    match letter {
        '3' => 1,
        '4' => 2,
        '5' => 3,
        '6' => 4,
        '7' => 5,
        '8' => 6,
        '9' => 7,
        'T' => 8,
        'J' => 9,
        'Q' => 10,
        'K' => 11,
        'A' => 12,
        _ => 0,
    }
}

/// The card at the two letters of `text` that start at `at`.
pub open spec fn card_at(text: Seq<char>, at: int) -> Card {
    Card { rank: rank_of(text[at]), suit: text[at + 1] }
}

/// The cards of a board: two letters each, a last odd letter left out.
pub open spec fn board_of(board: Seq<char>) -> Seq<Card> {
    Seq::new(board.len() / 2, |i: int| card_at(board, 2 * i))
}

/// Whether the letters of a hand and a board can be taken one byte at a time:
/// the first four of the hand, and all of the board.
pub open spec fn readable(hand: Seq<char>, board: Seq<char>) -> bool {
    &&& hand.len() >= 4
    &&& forall|i: int| 0 <= i < 4 ==> #[trigger] hand[i] <= '\u{7f}'
    &&& vstd::utf8::is_ascii_chars(board)
}

/// How many of the cards pass a test.
pub open spec fn count(cards: Seq<Card>, test: spec_fn(Card) -> bool) -> nat
    decreases cards.len(),
{
    if cards.len() == 0 {
        0
    } else {
        count(cards.drop_last(), test) + if test(cards.last()) {
            1nat
        } else {
            0
        }
    }
}

/// How many of the cards have a suit.
pub open spec fn suit_count(cards: Seq<Card>, suit: char) -> nat {
    count(cards, |card: Card| card.suit == suit)
}

/// How many of the cards have a rank.
pub open spec fn rank_count(cards: Seq<Card>, rank: u32) -> nat {
    count(cards, |card: Card| card.rank == rank)
}

/// How many of the cards have a higher rank.
pub open spec fn higher_count(cards: Seq<Card>, rank: u32) -> nat {
    count(cards, |card: Card| card.rank > rank)
}

/// Whether one of the cards has a rank.
pub open spec fn holds(cards: Seq<Card>, rank: int) -> bool {
    exists|i: int| 0 <= i < cards.len() && (#[trigger] cards[i]).rank == rank
}

/// Whether the cards hold `length` ranks in a row, from `low` up.
pub open spec fn run_from(cards: Seq<Card>, low: int, length: int) -> bool {
    forall|rank: int| low <= rank < low + length ==> #[trigger] holds(cards, rank)
}

/// Whether the cards hold `length` ranks in a row.
pub open spec fn has_run(cards: Seq<Card>, length: int) -> bool {
    exists|low: int| #[trigger] run_from(cards, low, length)
}

/// Whether the cards hold a straight: five ranks in a row, the ace counting
/// below the deuce too.
pub open spec fn has_straight(cards: Seq<Card>) -> bool {
    has_run(cards, 5) || (holds(cards, 12) && run_from(cards, 0, 4))
}

/// The larger number of cards in the suit of either hole card.
pub open spec fn flush_cards(first: Card, second: Card, board: Seq<Card>) -> nat {
    let all = seq![first, second] + board;
    let one = suit_count(all, first.suit);
    let other = suit_count(all, second.suit);
    if one > other {
        one
    } else {
        other
    }
}

/// What two hole cards make of a board.
pub open spec fn holding_of(first: Card, second: Card, board: Seq<Card>) -> Holding {
    let all = seq![first, second] + board;
    let one = rank_count(board, first.rank);
    let other = rank_count(board, second.rank);
    if flush_cards(first, second, board) >= 5 {
        Holding::Flush
    } else if has_straight(all) {
        Holding::Straight
    } else if one == 2 || other == 2 {
        Holding::Trips
    } else if one == 1 && other == 1 {
        Holding::TwoPair
    } else if (one == 1 && other == 0) || (one == 0 && other == 1) {
        // One pair: how many board cards lie above it.
        let above = higher_count(
            board,
            if one == 1 {
                first.rank
            } else {
                second.rank
            },
        );
        if above == 0 {
            Holding::TopPair
        } else if above == 1 {
            Holding::MiddlePair
        } else {
            Holding::LowPair
        }
    } else if first.rank == second.rank {
        if one == 0 && higher_count(board, first.rank) == 0 {
            Holding::Overpair
        } else {
            Holding::Underpair
        }
    } else if flush_cards(first, second, board) == 4 {
        Holding::FlushDraw
    } else if has_run(all, 4) {
        Holding::StraightDraw
    } else if first.rank >= 10 || second.rank >= 10 {
        Holding::HighCard
    } else {
        Holding::Nothing
    }
}

/// The strength of a holding in hundredths.
pub open spec fn percent_of(holding: Holding) -> u32 {
    match holding {
        Holding::Flush => 95,
        Holding::Straight => 93,
        Holding::Trips => 90,
        Holding::TwoPair => 85,
        Holding::Overpair => 80,
        Holding::TopPair => 75,
        Holding::FlushDraw => 65,
        Holding::MiddlePair => 60,
        Holding::StraightDraw => 55,
        Holding::Underpair => 50,
        Holding::LowPair => 40,
        Holding::HighCard => 35,
        Holding::Nothing => 15,
    }
}

/// The rank that a letter stands for.
fn read_rank(letter: char) -> (rank: u32)
    ensures
        rank == rank_of(letter),
        rank <= 12,
{
    match letter {
        '3' => 1,
        '4' => 2,
        '5' => 3,
        '6' => 4,
        '7' => 5,
        '8' => 6,
        '9' => 7,
        'T' => 8,
        'J' => 9,
        'Q' => 10,
        'K' => 11,
        'A' => 12,
        _ => 0,
    }
}

/// Whether a hand and a board can be read.
pub fn is_readable(hand: &str, board: &str) -> (ok: bool)
    ensures
        ok == readable(hand@, board@),
{
    if hand.unicode_len() < 4 || !board.is_ascii() {
        return false;
    }
    let mut i: usize = 0;
    while i < 4
        invariant
            i <= 4,
            hand@.len() >= 4,
            forall|j: int| 0 <= j < i ==> #[trigger] hand@[j] <= '\u{7f}',
        decreases 4 - i,
    {
        if hand.get_char(i) > '\u{7f}' {
            return false;
        }
        i = i + 1;
    }
    true
}

/// The two hole cards of a hand.
pub fn read_hand(hand: &str) -> (cards: (Card, Card))
    requires
        hand@.len() >= 4,
    ensures
        cards.0 == card_at(hand@, 0),
        cards.1 == card_at(hand@, 2),
{
    (
        Card { rank: read_rank(hand.get_char(0)), suit: hand.get_char(1) },
        Card { rank: read_rank(hand.get_char(2)), suit: hand.get_char(3) },
    )
}

/// The cards of a board.
pub fn read_board(board: &str) -> (cards: Vec<Card>)
    ensures
        cards@ == board_of(board@),
{
    let letters = board.unicode_len();
    let mut cards: Vec<Card> = Vec::new();
    let mut i: usize = 0;
    while i < letters / 2
        invariant
            letters == board@.len(),
            i <= letters / 2,
            cards@ == board_of(board@).take(i as int),
        decreases letters / 2 - i,
    {
        let rank = read_rank(board.get_char(2 * i));
        cards.push(Card { rank, suit: board.get_char(2 * i + 1) });
        i = i + 1;
    }
    assert(board_of(board@).take(i as int) == board_of(board@));
    cards
}

fn count_suit(cards: &Vec<Card>, suit: char) -> (count: usize)
    ensures
        count == suit_count(cards@, suit),
        count <= cards@.len(),
{
    let mut count: usize = 0;
    let mut i: usize = 0;
    while i < cards.len()
        invariant
            i <= cards@.len(),
            count <= i,
            count == suit_count(cards@.take(i as int), suit),
        decreases cards@.len() - i,
    {
        assert(cards@.take(i + 1).drop_last() == cards@.take(i as int));
        if cards[i].suit == suit {
            count = count + 1;
        }
        i = i + 1;
    }
    assert(cards@.take(i as int) == cards@);
    count
}

fn count_rank(cards: &Vec<Card>, rank: u32) -> (count: usize)
    ensures
        count == rank_count(cards@, rank),
{
    let mut count: usize = 0;
    let mut i: usize = 0;
    while i < cards.len()
        invariant
            i <= cards@.len(),
            count <= i,
            count == rank_count(cards@.take(i as int), rank),
        decreases cards@.len() - i,
    {
        assert(cards@.take(i + 1).drop_last() == cards@.take(i as int));
        if cards[i].rank == rank {
            count = count + 1;
        }
        i = i + 1;
    }
    assert(cards@.take(i as int) == cards@);
    count
}

fn count_higher(cards: &Vec<Card>, rank: u32) -> (count: usize)
    ensures
        count == higher_count(cards@, rank),
{
    let mut count: usize = 0;
    let mut i: usize = 0;
    while i < cards.len()
        invariant
            i <= cards@.len(),
            count <= i,
            count == higher_count(cards@.take(i as int), rank),
        decreases cards@.len() - i,
    {
        assert(cards@.take(i + 1).drop_last() == cards@.take(i as int));
        if cards[i].rank > rank {
            count = count + 1;
        }
        i = i + 1;
    }
    assert(cards@.take(i as int) == cards@);
    count
}

fn find_rank(cards: &Vec<Card>, rank: u32) -> (found: bool)
    ensures
        found == holds(cards@, rank as int),
{
    let mut i: usize = 0;
    while i < cards.len()
        invariant
            i <= cards@.len(),
            forall|j: int| 0 <= j < i ==> (#[trigger] cards@[j]).rank != rank,
        decreases cards@.len() - i,
    {
        if cards[i].rank == rank {
            return true;
        }
        i = i + 1;
    }
    false
}

fn find_run_from(cards: &Vec<Card>, low: u32, length: u32) -> (found: bool)
    requires
        low + length <= 13,
    ensures
        found == run_from(cards@, low as int, length as int),
{
    let mut rank: u32 = low;
    while rank < low + length
        invariant
            low + length <= 13,
            low <= rank <= low + length,
            forall|r: int| low <= r < rank ==> #[trigger] holds(cards@, r),
        decreases low + length - rank,
    {
        if !find_rank(cards, rank) {
            assert(!holds(cards@, rank as int));
            return false;
        }
        rank = rank + 1;
    }
    true
}

/// Whether the ranks are those of a deck.
pub open spec fn ranked(cards: Seq<Card>) -> bool {
    forall|i: int| 0 <= i < cards.len() ==> (#[trigger] cards[i]).rank <= 12
}

fn find_run(cards: &Vec<Card>, length: u32) -> (found: bool)
    requires
        ranked(cards@),
        1 <= length <= 13,
    ensures
        found == has_run(cards@, length as int),
{
    let mut low: u32 = 0;
    while low <= 13 - length
        invariant
            1 <= length <= 13,
            low <= 14 - length,
            forall|l: int| 0 <= l < low ==> !#[trigger] run_from(cards@, l, length as int),
        decreases 14 - length - low,
    {
        if find_run_from(cards, low, length) {
            return true;
        }
        low = low + 1;
    }
    proof {
        assert forall|l: int| !#[trigger] run_from(cards@, l, length as int) by {
            if run_from(cards@, l, length as int) {
                assert(holds(cards@, l));
                assert(holds(cards@, l + length - 1));
            }
        }
    }
    false
}

fn find_straight(cards: &Vec<Card>) -> (found: bool)
    requires
        ranked(cards@),
    ensures
        found == has_straight(cards@),
{
    find_run(cards, 5) || (find_rank(cards, 12) && find_run_from(cards, 0, 4))
}

/// What two hole cards make of a board.
pub fn classify(first: Card, second: Card, board: &Vec<Card>) -> (holding: Holding)
    requires
        first.rank <= 12,
        second.rank <= 12,
        ranked(board@),
    ensures
        holding == holding_of(first, second, board@),
{
    let mut all: Vec<Card> = Vec::new();
    all.push(first);
    all.push(second);
    let mut i: usize = 0;
    while i < board.len()
        invariant
            i <= board@.len(),
            all@ == seq![first, second] + board@.take(i as int),
        decreases board@.len() - i,
    {
        all.push(board[i]);
        i = i + 1;
    }
    assert(board@.take(i as int) == board@);
    assert(ranked(all@)) by {
        assert forall|j: int| 0 <= j < all@.len() implies (#[trigger] all@[j]).rank <= 12 by {
            if j >= 2 {
                assert(all@[j] == board@[j - 2]);
            }
        }
    }
    let suited_first = count_suit(&all, first.suit);
    let suited_second = count_suit(&all, second.suit);
    let flush = if suited_first > suited_second {
        suited_first
    } else {
        suited_second
    };
    if flush >= 5 {
        return Holding::Flush;
    }
    if find_straight(&all) {
        return Holding::Straight;
    }
    let one = count_rank(board, first.rank);
    let other = count_rank(board, second.rank);
    if one == 2 || other == 2 {
        return Holding::Trips;
    }
    if one == 1 && other == 1 {
        return Holding::TwoPair;
    }
    if (one == 1 && other == 0) || (one == 0 && other == 1) {
        let paired = if one == 1 {
            first.rank
        } else {
            second.rank
        };
        let above = count_higher(board, paired);
        return if above == 0 {
            Holding::TopPair
        } else if above == 1 {
            Holding::MiddlePair
        } else {
            Holding::LowPair
        };
    }
    if first.rank == second.rank {
        return if one == 0 && count_higher(board, first.rank) == 0 {
            Holding::Overpair
        } else {
            Holding::Underpair
        };
    }
    if flush == 4 {
        return Holding::FlushDraw;
    }
    if find_run(&all, 4) {
        return Holding::StraightDraw;
    }
    if first.rank >= 10 || second.rank >= 10 {
        Holding::HighCard
    } else {
        Holding::Nothing
    }
}

impl Holding {
    /// The strength of the holding in hundredths.
    pub fn percent(self) -> (percent: u32)
        ensures
            percent == percent_of(self),
    {
        match self {
            Holding::Flush => 95,
            Holding::Straight => 93,
            Holding::Trips => 90,
            Holding::TwoPair => 85,
            Holding::Overpair => 80,
            Holding::TopPair => 75,
            Holding::FlushDraw => 65,
            Holding::MiddlePair => 60,
            Holding::StraightDraw => 55,
            Holding::Underpair => 50,
            Holding::LowPair => 40,
            Holding::HighCard => 35,
            Holding::Nothing => 15,
        }
    }
}

/// A count is one over the multiset of the cards.
proof fn lemma_count_filter(cards: Seq<Card>, test: spec_fn(Card) -> bool)
    ensures
        count(cards, test) == cards.to_multiset().filter(test).len(),
    decreases cards.len(),
{
    broadcast use vstd::seq_lib::group_to_multiset_ensures;
    broadcast use vstd::multiset::group_multiset_axioms;

    if cards.len() == 0 {
        assert(cards.to_multiset() =~= vstd::multiset::Multiset::empty());
        assert(cards.to_multiset().filter(test) =~= vstd::multiset::Multiset::empty());
    } else {
        let fewer = cards.drop_last();
        lemma_count_filter(fewer, test);
        assert(cards == fewer.push(cards.last()));
        assert(cards.to_multiset() =~= fewer.to_multiset().insert(cards.last()));
        if test(cards.last()) {
            assert(cards.to_multiset().filter(test) =~= fewer.to_multiset().filter(test).insert(
                cards.last(),
            ));
        } else {
            assert(cards.to_multiset().filter(test) =~= fewer.to_multiset().filter(test));
        }
    }
}

/// Holding a rank does not depend on the order of the cards.
proof fn lemma_holds_reordered(cards: Seq<Card>, others: Seq<Card>, rank: int)
    requires
        cards.to_multiset() == others.to_multiset(),
        holds(cards, rank),
    ensures
        holds(others, rank),
{
    cards.to_multiset_ensures();
    others.to_multiset_ensures();
    let i = choose|i: int| 0 <= i < cards.len() && (#[trigger] cards[i]).rank == rank;
    assert(cards.contains(cards[i]));
    assert(cards.to_multiset().count(cards[i]) > 0);
    assert(others.contains(cards[i]));
}

proof fn lemma_runs_reordered(cards: Seq<Card>, others: Seq<Card>)
    requires
        cards.to_multiset() == others.to_multiset(),
    ensures
        forall|rank: int| holds(cards, rank) == #[trigger] holds(others, rank),
        forall|length: int| #[trigger] has_run(cards, length) == has_run(others, length),
        has_straight(cards) == has_straight(others),
{
    assert forall|rank: int| holds(cards, rank) == #[trigger] holds(others, rank) by {
        if holds(cards, rank) {
            lemma_holds_reordered(cards, others, rank);
        }
        if holds(others, rank) {
            lemma_holds_reordered(others, cards, rank);
        }
    }
    assert forall|low: int, length: int|
        run_from(cards, low, length) == #[trigger] run_from(others, low, length) by {
        if run_from(others, low, length) {
            assert forall|rank: int| low <= rank < low + length implies #[trigger] holds(
                cards,
                rank,
            ) by {
                assert(holds(others, rank));
            }
        }
    }
    assert forall|length: int| #[trigger] has_run(cards, length) == has_run(others, length) by {
        if has_run(cards, length) {
            let low = choose|low: int| run_from(cards, low, length);
            assert(run_from(others, low, length));
        }
        if has_run(others, length) {
            let low = choose|low: int| run_from(others, low, length);
            assert(run_from(cards, low, length));
        }
    }
    assert(run_from(cards, 0, 4) == run_from(others, 0, 4));
    assert(holds(cards, 12) == holds(others, 12));
}

/// The order of the hole cards, and that of the board's, does not matter.
pub proof fn lemma_holding_order(first: Card, second: Card, board: Seq<Card>, other: Seq<Card>)
    requires
        board.to_multiset() == other.to_multiset(),
    ensures
        holding_of(first, second, board) == holding_of(first, second, other),
        holding_of(first, second, board) == holding_of(second, first, other),
{
    let all = seq![first, second] + board;
    let one = seq![first, second] + other;
    let two = seq![second, first] + other;
    vstd::seq_lib::lemma_multiset_commutative(seq![first, second], board);
    vstd::seq_lib::lemma_multiset_commutative(seq![first, second], other);
    vstd::seq_lib::lemma_multiset_commutative(seq![second, first], other);
    assert(seq![first, second].to_multiset() =~= seq![second, first].to_multiset()) by {
        broadcast use vstd::seq_lib::group_to_multiset_ensures;

        let none = Seq::<Card>::empty();
        assert(seq![first, second] == none.push(first).push(second));
        assert(seq![second, first] == none.push(second).push(first));
    }
    assert(all.to_multiset() == one.to_multiset());
    assert(all.to_multiset() == two.to_multiset());
    lemma_runs_reordered(all, one);
    lemma_runs_reordered(all, two);
    assert forall|test: spec_fn(Card) -> bool|
        #[trigger] count(all, test) == count(one, test) && count(all, test) == count(
            two,
            test,
        ) by {
        lemma_count_filter(all, test);
        lemma_count_filter(one, test);
        lemma_count_filter(two, test);
    }
    assert forall|test: spec_fn(Card) -> bool| #[trigger]
        count(board, test) == count(other, test) by {
        lemma_count_filter(board, test);
        lemma_count_filter(other, test);
    }
}

/// The letters of the ranks, from the deuce to the ace, stand for 0 to 12; any
/// other letter stands for 0.
pub proof fn lemma_ranks(letter: char)
    ensures
        ({
            let letters = seq!['2', '3', '4', '5', '6', '7', '8', '9', 'T', 'J', 'Q', 'K', 'A'];
            &&& forall|i: int| 0 <= i < 13 ==> rank_of(#[trigger] letters[i]) == i
            &&& !letters.contains(letter) ==> rank_of(letter) == 0
            &&& rank_of(letter) <= 12
        }),
{
    let letters = seq!['2', '3', '4', '5', '6', '7', '8', '9', 'T', 'J', 'Q', 'K', 'A'];
    if !letters.contains(letter) {
        assert(letters[1] != letter && letters[2] != letter && letters[3] != letter && letters[4]
            != letter && letters[5] != letter && letters[6] != letter && letters[7] != letter
            && letters[8] != letter && letters[9] != letter && letters[10] != letter && letters[11]
            != letter && letters[12] != letter);
    }
}

/// A card is two letters, its rank and its suit, and a board is its letters
/// taken in twos from the first on. A last odd letter is no card.
pub proof fn lemma_cards_of_letters(text: Seq<char>)
    ensures
        board_of(text).len() == text.len() / 2,
        forall|i: int|
            0 <= i < text.len() / 2 ==> (#[trigger] board_of(text)[i]).rank == rank_of(text[2 * i])
                && board_of(text)[i].suit == text[2 * i + 1] && card_at(text, 2 * i) == board_of(
                text,
            )[i],
{
}

/// A hand and a board can be read just where the hand has four letters of seven
/// bits in front, and the board no others.
pub proof fn lemma_readable(hand: Seq<char>, board: Seq<char>)
    ensures
        readable(hand, board) <==> {
            &&& hand.len() >= 4
            &&& hand[0] <= '\u{7f}' && hand[1] <= '\u{7f}' && hand[2] <= '\u{7f}' && hand[3]
                <= '\u{7f}'
            &&& forall|i: int|
                0 <= i < board.len() ==> '\0' <= #[trigger] board[i] <= '\u{7f}'
        },
{
}

/// A count is the number of places where the test is passed.
proof fn lemma_count_places(cards: Seq<Card>, test: spec_fn(Card) -> bool)
    ensures
        Set::new(|i: int| 0 <= i < cards.len() && test(cards[i])).finite(),
        count(cards, test) == Set::new(|i: int| 0 <= i < cards.len() && test(cards[i])).len(),
    decreases cards.len(),
{
    let places = Set::new(|i: int| 0 <= i < cards.len() && test(cards[i]));
    if cards.len() == 0 {
        assert(places =~= Set::<int>::empty());
    } else {
        let fewer = cards.drop_last();
        let last = cards.len() - 1;
        let before = Set::new(|i: int| 0 <= i < fewer.len() && test(fewer[i]));
        lemma_count_places(fewer, test);
        if test(cards[last]) {
            assert(places =~= before.insert(last));
        } else {
            assert(places =~= before);
        }
    }
}

/// Cards are counted place by place: those of a suit, those of a rank, and
/// those of a higher rank.
pub proof fn lemma_counts(cards: Seq<Card>, suit: char, rank: u32)
    ensures
        suit_count(cards, suit) == Set::new(
            |i: int| 0 <= i < cards.len() && cards[i].suit == suit,
        ).len(),
        rank_count(cards, rank) == Set::new(
            |i: int| 0 <= i < cards.len() && cards[i].rank == rank,
        ).len(),
        higher_count(cards, rank) == Set::new(
            |i: int| 0 <= i < cards.len() && cards[i].rank > rank,
        ).len(),
{
    let of_suit = |card: Card| card.suit == suit;
    let of_rank = |card: Card| card.rank == rank;
    let of_higher = |card: Card| card.rank > rank;
    lemma_count_places(cards, of_suit);
    lemma_count_places(cards, of_rank);
    lemma_count_places(cards, of_higher);
    assert(Set::new(|i: int| 0 <= i < cards.len() && of_suit(cards[i])) =~= Set::new(
        |i: int| 0 <= i < cards.len() && cards[i].suit == suit,
    ));
    assert(Set::new(|i: int| 0 <= i < cards.len() && of_rank(cards[i])) =~= Set::new(
        |i: int| 0 <= i < cards.len() && cards[i].rank == rank,
    ));
    assert(Set::new(|i: int| 0 <= i < cards.len() && of_higher(cards[i])) =~= Set::new(
        |i: int| 0 <= i < cards.len() && cards[i].rank > rank,
    ));
}

/// Cards hold a run just where each of its ranks, one above the other, is that
/// of a card, and a straight just where they hold five ranks in a row, or the
/// ace with the four lowest ranks.
pub proof fn lemma_runs(cards: Seq<Card>)
    ensures
        forall|rank: int|
            #[trigger] holds(cards, rank) <==> !(forall|i: int|
                0 <= i < cards.len() ==> (#[trigger] cards[i]).rank != rank),
        has_run(cards, 4) <==> exists|from: int|
            #[trigger] holds(cards, from) && holds(cards, from + 1) && holds(cards, from + 2)
                && holds(cards, from + 3),
        has_straight(cards) <==> {
            ||| exists|from: int|
                #[trigger] holds(cards, from) && holds(cards, from + 1) && holds(cards, from + 2)
                    && holds(cards, from + 3) && holds(cards, from + 4)
            ||| holds(cards, 12) && holds(cards, 0) && holds(cards, 1) && holds(cards, 2) && holds(
                cards,
                3,
            )
        },
{
    assert forall|from: int| #[trigger] run_from(cards, from, 4) <==> holds(cards, from) && holds(
        cards,
        from + 1,
    ) && holds(cards, from + 2) && holds(cards, from + 3) by {}
    assert forall|from: int| #[trigger] run_from(cards, from, 5) <==> holds(cards, from) && holds(
        cards,
        from + 1,
    ) && holds(cards, from + 2) && holds(cards, from + 3) && holds(cards, from + 4) by {}
    if has_run(cards, 4) {
        let from = choose|from: int| run_from(cards, from, 4);
        assert(holds(cards, from + 1));
    }
    if has_run(cards, 5) {
        let from = choose|from: int| run_from(cards, from, 5);
        assert(holds(cards, from + 1));
    }
    if exists|from: int|
        #[trigger] holds(cards, from) && holds(cards, from + 1) && holds(cards, from + 2) && holds(
            cards,
            from + 3,
        ) {
        let from = choose|from: int|
            #[trigger] holds(cards, from) && holds(cards, from + 1) && holds(cards, from + 2)
                && holds(cards, from + 3);
        assert(run_from(cards, from, 4));
    }
    if exists|from: int|
        #[trigger] holds(cards, from) && holds(cards, from + 1) && holds(cards, from + 2) && holds(
            cards,
            from + 3,
        ) && holds(cards, from + 4) {
        let from = choose|from: int|
            #[trigger] holds(cards, from) && holds(cards, from + 1) && holds(cards, from + 2)
                && holds(cards, from + 3) && holds(cards, from + 4);
        assert(run_from(cards, from, 5));
    }
}

/// What two hole cards make of a board, by what is counted: cards of a hole
/// card's suit, runs of ranks, board cards of a hole card's rank, and board
/// cards above a pair.
pub proof fn lemma_holdings(first: Card, second: Card, board: Seq<Card>)
    ensures
        ({
            let all = seq![first, second] + board;
            let suited = vstd::math::max(
                suit_count(all, first.suit) as int,
                suit_count(all, second.suit) as int,
            );
            let one = rank_count(board, first.rank);
            let other = rank_count(board, second.rank);
            let made = suited >= 5 || has_straight(all);
            let matched = one == 2 || other == 2 || one == 1 && other <= 1 || other == 1 && one <= 1;
            let paired = !made && one + other == 1;
            let above = higher_count(
                board,
                if one == 1 {
                    first.rank
                } else {
                    second.rank
                },
            );
            let pocket = !made && !matched && first.rank == second.rank;
            let open = !made && !matched && first.rank != second.rank;
            let holding = holding_of(first, second, board);
            &&& holding == Holding::Flush <==> suited >= 5
            &&& holding == Holding::Straight <==> suited < 5 && has_straight(all)
            &&& holding == Holding::Trips <==> !made && (one == 2 || other == 2)
            &&& holding == Holding::TwoPair <==> !made && one == 1 && other == 1
            &&& holding == Holding::TopPair <==> paired && above == 0
            &&& holding == Holding::MiddlePair <==> paired && above == 1
            &&& holding == Holding::LowPair <==> paired && above >= 2
            &&& holding == Holding::Overpair <==> pocket && one == 0 && higher_count(
                board,
                first.rank,
            ) == 0
            &&& holding == Holding::Underpair <==> pocket && (one > 0 || higher_count(
                board,
                first.rank,
            ) > 0)
            &&& holding == Holding::FlushDraw <==> open && suited == 4
            &&& holding == Holding::StraightDraw <==> open && suited < 4 && has_run(all, 4)
            &&& holding == Holding::HighCard <==> open && suited < 4 && !has_run(all, 4) && (
            first.rank >= 10 || second.rank >= 10)
            &&& holding == Holding::Nothing <==> open && suited < 4 && !has_run(all, 4)
                && first.rank < 10 && second.rank < 10
        }),
{
}

/// A flush is made, whatever else is, where four cards of the board have the
/// first hole card's suit, or three have that of both hole cards.
pub proof fn lemma_flush(first: Card, second: Card, board: Seq<Card>)
    requires
        Set::new(|i: int| 0 <= i < board.len() && board[i].suit == first.suit).len() >= 4 || (
        first.suit == second.suit && Set::new(
            |i: int| 0 <= i < board.len() && board[i].suit == first.suit,
        ).len() >= 3),
    ensures
        holding_of(first, second, board) == Holding::Flush,
{
    let of_suit = |card: Card| card.suit == first.suit;
    lemma_counts(board, first.suit, 0);
    lemma_count_after(seq![first, second], board, of_suit);
    reveal_with_fuel(count, 3);
    assert(seq![first, second].drop_last() == seq![first]);
    assert(seq![first].drop_last() == Seq::<Card>::empty());
    assert(suit_count(seq![first, second] + board, first.suit) >= 5);
}

/// Counts of one sequence after another add up.
proof fn lemma_count_after(cards: Seq<Card>, more: Seq<Card>, test: spec_fn(Card) -> bool)
    ensures
        count(cards + more, test) == count(cards, test) + count(more, test),
    decreases more.len(),
{
    if more.len() == 0 {
        assert(cards + more == cards);
    } else {
        assert((cards + more).drop_last() == cards + more.drop_last());
        lemma_count_after(cards, more.drop_last(), test);
    }
}

} // verus!
