//! How strong a hand is, as a binary32 number from 0 to 1.

use vstd::prelude::*;
use vstd::string::StrSliceExecFns;
use crate::cards::{
    board_of, card_at, classify, holding_of, lemma_holding_order, percent_of, rank_of, ranked,
    read_board, read_hand, readable, Card, Holding,
};
use crate::single::{
    clamp_units, lemma_plus_range, lemma_ratio_range, lemma_rounded_bounds, lemma_rounded_close,
    lemma_rounded_monotone, lemma_rounded_representable, lemma_small_wholes, lemma_times_range,
    plus_units, ratio_units, representable, times_units, Single, ONE,
};

verus! {

/// The higher rank of two cards.
pub open spec fn high_rank(first: Card, second: Card) -> u32 {
    if first.rank > second.rank {
        first.rank
    } else {
        second.rank
    }
}

/// The lower rank of two cards.
pub open spec fn low_rank(first: Card, second: Card) -> u32 {
    if first.rank > second.rank {
        second.rank
    } else {
        first.rank
    }
}

/// The strength of a pair before the board: 0.60, and up to 0.35 for its rank.
pub open spec fn pair_units(rank: int) -> int {
    plus_units(ratio_units(60, 100), times_units(ratio_units(rank, 12), ratio_units(35, 100)))
}

/// The strength of two unpaired ranks before the board: up to 0.40 for the
/// higher one and 0.20 for the lower one, 0.10 for one suit and 0.05 for
/// neighbouring ranks, kept between 0.05 and 0.95.
pub open spec fn unpaired_units(high: int, low: int, suited: bool) -> int {
    let ranks = plus_units(
        times_units(ratio_units(high, 12), ratio_units(40, 100)),
        times_units(ratio_units(low, 12), ratio_units(20, 100)),
    );
    let with_suit = if suited {
        plus_units(ranks, ratio_units(10, 100))
    } else {
        ranks
    };
    let with_neighbours = if high - low == 1 {
        plus_units(with_suit, ratio_units(5, 100))
    } else {
        with_suit
    };
    clamp_units(with_neighbours, ratio_units(5, 100), ratio_units(95, 100))
}

/// The strength of a hand on a board. Before the board a pair is two equal
/// letters; on a board it is two equal ranks.
pub open spec fn strength_units(hand: Seq<char>, board: Seq<char>) -> int {
    let first = card_at(hand, 0);
    let second = card_at(hand, 2);
    if board.len() > 0 {
        ratio_units(percent_of(holding_of(first, second, board_of(board))) as int, 100)
    } else if hand[0] == hand[2] {
        pair_units(high_rank(first, second) as int)
    } else {
        unpaired_units(
            high_rank(first, second) as int,
            low_rank(first, second) as int,
            first.suit == second.suit,
        )
    }
}

/// A part of one, scaled by a rank from 0 to 12.
fn rank_share(rank: u32, percent: u32) -> (share: Single)
    requires
        rank <= 12,
        1 <= percent <= 100,
    ensures
        share@ == times_units(ratio_units(rank as int, 12), ratio_units(percent as int, 100)),
        share.wf(),
        share@ <= ONE,
{
    proof {
        lemma_ratio_range(percent as int, 100);
        if rank > 0 {
            lemma_ratio_range(rank as int, 12);
        }
    }
    let level = Single::ratio(rank, 12);
    let part = Single::ratio(percent, 100);
    proof {
        lemma_times_range(level@, part@);
        if rank > 0 {
            assert(level@ * part@ >= 0x2_0000_0000 * 0x2_0000_0000) by (nonlinear_arith)
                requires
                    level@ >= 0x2_0000_0000,
                    part@ >= 0x2_0000_0000,
            ;
        } else {
            assert(level@ * part@ == 0) by (nonlinear_arith)
                requires
                    level@ == 0,
            ;
        }
    }
    level.times(part)
}

/// The strength of a pair before the board.
pub fn pair_strength(rank: u32) -> (strength: Single)
    requires
        rank <= 12,
    ensures
        strength@ == pair_units(rank as int),
        strength.wf(),
{
    proof {
        lemma_ratio_range(60, 100);
    }
    Single::ratio(60, 100).plus(rank_share(rank, 35))
}

/// The strength of two unpaired ranks before the board.
pub fn unpaired_strength(high: u32, low: u32, suited: bool) -> (strength: Single)
    requires
        low <= high <= 12,
    ensures
        strength@ == unpaired_units(high as int, low as int, suited),
        strength.wf(),
{
    proof {
        lemma_small_wholes();
        lemma_ratio_range(5, 100);
        lemma_ratio_range(10, 100);
        lemma_ratio_range(95, 100);
    }
    let high_share = rank_share(high, 40);
    let low_share = rank_share(low, 20);
    let mut strength = high_share.plus(low_share);
    proof {
        lemma_plus_range(high_share@, low_share@, 2 * ONE);
    }
    if suited {
        proof {
            lemma_plus_range(strength@, ratio_units(10, 100), 4 * ONE);
        }
        strength = strength.plus(Single::ratio(10, 100));
    }
    if high - low == 1 {
        strength = strength.plus(Single::ratio(5, 100));
    }
    proof {
        lemma_rounded_monotone(5 * ONE, 95 * ONE, 100);
    }
    strength.clamp(Single::ratio(5, 100), Single::ratio(95, 100))
}

/// How strong a hand is on a board.
pub fn evaluate_poker_strength(hand: &str, board: &str) -> (strength: Single)
    requires
        readable(hand@, board@),
    ensures
        strength@ == strength_units(hand@, board@),
        strength.wf(),
{
    let (first, second) = read_hand(hand);
    let (high, low) = if first.rank > second.rank {
        (first.rank, second.rank)
    } else {
        (second.rank, first.rank)
    };
    if board.is_empty() {
        if hand.get_char(0) == hand.get_char(2) {
            return pair_strength(high);
        }
        return unpaired_strength(high, low, first.suit == second.suit);
    }
    let cards = read_board(board);
    assert(ranked(cards@));
    let percent = classify(first, second, &cards).percent();
    proof {
        lemma_ratio_range(percent as int, 100);
    }
    Single::ratio(percent, 100)
}

/// A hand is no stronger or weaker for the order of its two cards, nor for
/// the order of the cards on the board.
pub proof fn lemma_strength_order(
    hand: Seq<char>,
    swapped: Seq<char>,
    board: Seq<char>,
    shuffled: Seq<char>,
)
    requires
        readable(hand, board),
        readable(swapped, shuffled),
        swapped[0] == hand[2],
        swapped[1] == hand[3],
        swapped[2] == hand[0],
        swapped[3] == hand[1],
        board.len() == 0 <==> shuffled.len() == 0,
        board_of(board).to_multiset() == board_of(shuffled).to_multiset(),
    ensures
        strength_units(hand, board) == strength_units(swapped, shuffled),
        strength_units(hand, board) == strength_units(hand, shuffled),
{
    lemma_holding_order(card_at(hand, 0), card_at(hand, 2), board_of(board), board_of(shuffled));
}

/// Every strength lies between 0.05 and 1.
pub proof fn lemma_strength_range(hand: Seq<char>, board: Seq<char>)
    requires
        readable(hand, board),
    ensures
        ratio_units(5, 100) <= strength_units(hand, board) <= ONE,
{
    let first = card_at(hand, 0);
    let second = card_at(hand, 2);
    lemma_ratio_range(95, 100);
    lemma_rounded_monotone(5 * ONE, 95 * ONE, 100);
    if board.len() > 0 {
        let percent = percent_of(holding_of(first, second, board_of(board))) as int;
        lemma_ratio_range(percent, 100);
        lemma_rounded_monotone(5 * ONE, percent * ONE, 100);
    } else if hand[0] == hand[2] {
        let rank = high_rank(first, second) as int;
        let part = ratio_units(35, 100);
        let share = times_units(ratio_units(rank, 12), part);
        reveal_with_fuel(representable, 20);
        lemma_rounded_representable(35 * ONE, 100);
        lemma_rounded_bounds(35 * ONE, 100, 3 * (ONE / 8));
        lemma_rounded_bounds(60 * ONE, 100, 5 * (ONE / 8));
        lemma_rounded_monotone(5 * ONE, 60 * ONE, 100);
        if rank > 0 {
            lemma_ratio_range(rank, 12);
        }
        let level = ratio_units(rank, 12);
        lemma_times_range(level, part);
        assert(level * part <= part * ONE) by (nonlinear_arith)
            requires
                level <= ONE,
                part >= 0,
        ;
        lemma_rounded_bounds(level * part, ONE as int, part);
        lemma_ratio_range(60, 100);
        lemma_plus_range(ratio_units(60, 100), share, ONE as int);
        lemma_rounded_representable(60 * ONE, 100);
        lemma_rounded_bounds(ratio_units(60, 100) + share, 1, ratio_units(60, 100));
    }
}

/// How far a share of a rank lies from the exact one, in parts of 1200.
proof fn lemma_share_close(rank: int, percent: int)
    requires
        0 <= rank <= 12,
        1 <= percent <= 100,
    ensures
        ({
            let share = times_units(ratio_units(rank, 12), ratio_units(percent, 100));
            &&& 0 <= share <= ONE
            &&& -0x1000_0000 <= 1200 * share - rank * percent * ONE <= 0x1000_0000
        }),
{
    vstd::arithmetic::power2::lemma2_to64();
    let level = ratio_units(rank, 12);
    let part = ratio_units(percent, 100);
    let share = times_units(level, part);
    lemma_ratio_range(percent, 100);
    if rank > 0 {
        lemma_ratio_range(rank, 12);
    }
    lemma_times_range(level, part);
    lemma_rounded_close(rank * ONE, 12, 17);
    lemma_rounded_close(percent * ONE, 100, 17);
    lemma_rounded_close(level * part, ONE as int, 17);
    let e1 = 12 * level - rank * ONE;
    let e2 = 100 * part - percent * ONE;
    let e3 = share * ONE - level * part;
    assert(level * 12 == 12 * level && part * 100 == 100 * part);
    assert(-0xc_0000 <= e1 <= 0xc_0000);
    assert(-0x64_0000 <= e2 <= 0x64_0000);
    assert(-0x1_0000 * ONE <= e3 <= 0x1_0000 * ONE);
    let one = ONE as int;
    let x = rank * one;
    let y = percent * one;
    assert(1200 * (level * part) == (x + e1) * (y + e2)) by (nonlinear_arith)
        requires
            12 * level == x + e1,
            100 * part == y + e2,
    ;
    assert((x + e1) * (y + e2) == x * y + x * e2 + e1 * y + e1 * e2) by (nonlinear_arith);
    assert(x * y == (rank * percent * one) * one) by (nonlinear_arith)
        requires
            x == rank * one,
            y == percent * one,
    ;
    assert(x * e2 == one * (rank * e2)) by (nonlinear_arith)
        requires
            x == rank * one,
    ;
    assert(e1 * y == one * (percent * e1)) by (nonlinear_arith)
        requires
            y == percent * one,
    ;
    assert(-12 * 0x64_0000 <= rank * e2 <= 12 * 0x64_0000) by (nonlinear_arith)
        requires
            0 <= rank <= 12,
            -0x64_0000 <= e2 <= 0x64_0000,
    ;
    assert(-100 * 0xc_0000 <= percent * e1 <= 100 * 0xc_0000) by (nonlinear_arith)
        requires
            0 <= percent <= 100,
            -0xc_0000 <= e1 <= 0xc_0000,
    ;
    assert(-0xc_0000 * 0x64_0000 <= e1 * e2 <= 0xc_0000 * 0x64_0000) by (nonlinear_arith)
        requires
            -0xc_0000 <= e1 <= 0xc_0000,
            -0x64_0000 <= e2 <= 0x64_0000,
    ;
    let gap = 1200 * share - rank * percent * one;
    assert(gap * one == 1200 * (share * one) - (rank * percent * one) * one) by (nonlinear_arith)
        requires
            gap == 1200 * share - rank * percent * one,
    ;
    assert(gap * one == one * (rank * e2) + one * (percent * e1) + e1 * e2 + 1200 * e3);
}

/// Before the board two cards of the same letter are worth 0.60, and 0.35 more
/// for twelve ranks above the deuce: in parts of 1200, within a millionth.
pub proof fn lemma_pair_value(hand: Seq<char>)
    requires
        readable(hand, Seq::empty()),
        hand[0] == hand[2],
    ensures
        ({
            let value = 720 + 35 * rank_of(hand[0]);
            let strength = strength_units(hand, Seq::empty());
            -0x4000_0000 <= 1200 * strength - value * ONE <= 0x4000_0000
        }),
{
    vstd::arithmetic::power2::lemma2_to64();
    crate::cards::lemma_ranks(hand[0]);
    let rank = rank_of(hand[0]) as int;
    lemma_share_close(rank, 35);
    lemma_ratio_range(60, 100);
    lemma_rounded_close(60 * ONE, 100, 17);
    let share = times_units(ratio_units(rank, 12), ratio_units(35, 100));
    lemma_rounded_close(ratio_units(60, 100) + share, 1, 18);
}

/// What two cards of different letters are worth before the board, in parts of
/// 1200: 40 for each rank of the higher card and 20 for each of the lower one,
/// 120 for one suit and 60 for neighbouring ranks, but no less than 60.
pub open spec fn opening_value(hand: Seq<char>) -> int {
    let one = rank_of(hand[0]) as int;
    let two = rank_of(hand[2]) as int;
    let ranks = 40 * vstd::math::max(one, two) + 20 * vstd::math::min(one, two);
    let suit: int = if hand[1] == hand[3] {
        120
    } else {
        0
    };
    let neighbours: int = if one - two == 1 || two - one == 1 {
        60
    } else {
        0
    };
    vstd::math::max(60, ranks + suit + neighbours)
}

/// The strength of two unpaired ranks before the board is that of the ranks,
/// one suit and neighbouring ranks, in parts of 1200 and within a millionth; it
/// is kept from falling below 0.05 only where it has to be.
pub proof fn lemma_unpaired_close(high: int, low: int, suited: bool)
    requires
        0 <= low <= high <= 12,
    ensures
        ({
            let exact = 40 * high + 20 * low + (if suited {
                120int
            } else {
                0
            }) + (if high - low == 1 {
                60int
            } else {
                0
            });
            let ranks = plus_units(
                times_units(ratio_units(high, 12), ratio_units(40, 100)),
                times_units(ratio_units(low, 12), ratio_units(20, 100)),
            );
            let with_suit = if suited {
                plus_units(ranks, ratio_units(10, 100))
            } else {
                ranks
            };
            let with_neighbours = if high - low == 1 {
                plus_units(with_suit, ratio_units(5, 100))
            } else {
                with_suit
            };
            let strength = unpaired_units(high, low, suited);
            &&& -0x4000_0000 <= 1200 * strength - vstd::math::max(60, exact) * ONE <= 0x4000_0000
            &&& exact > 60 ==> strength == with_neighbours
            &&& exact < 60 ==> strength == ratio_units(5, 100)
        }),
{
    vstd::arithmetic::power2::lemma2_to64();
    lemma_share_close(high, 40);
    lemma_share_close(low, 20);
    lemma_rounded_close(5 * ONE, 100, 17);
    lemma_rounded_close(10 * ONE, 100, 17);
    lemma_rounded_close(95 * ONE, 100, 17);
    let five = ratio_units(5, 100);
    let ten = ratio_units(10, 100);
    let most = ratio_units(95, 100);
    assert(-0x640_0000 <= 1200 * five - 60 * ONE <= 0x640_0000);
    assert(-0x640_0000 <= 1200 * ten - 120 * ONE <= 0x640_0000);
    assert(-0x640_0000 <= 1200 * most - 1140 * ONE <= 0x640_0000);
    let high_share = times_units(ratio_units(high, 12), ratio_units(40, 100));
    let low_share = times_units(ratio_units(low, 12), ratio_units(20, 100));
    let ranks = plus_units(high_share, low_share);
    assert(high_share + low_share < ONE);
    lemma_rounded_close(high_share + low_share, 1, 17);
    let plain = 40 * high + 20 * low;
    assert(-0x2800_0000 <= 1200 * ranks - plain * ONE <= 0x2800_0000);
    let with_suit = if suited {
        plus_units(ranks, ten)
    } else {
        ranks
    };
    let suit_exact = plain + if suited {
        120int
    } else {
        0
    };
    lemma_rounded_representable(high_share + low_share, 1);
    if suited {
        lemma_rounded_close(ranks + ten, 1, 17);
        lemma_rounded_representable(ranks + ten, 1);
    }
    assert(-0x3200_0000 <= 1200 * with_suit - suit_exact * ONE <= 0x3200_0000);
    if high - low == 1 {
        lemma_rounded_close(with_suit + five, 1, 17);
    }
}

/// Before the board two cards of different letters are worth what their ranks,
/// one suit and neighbouring ranks add up to, within a millionth.
pub proof fn lemma_unpaired_value(hand: Seq<char>)
    requires
        readable(hand, Seq::empty()),
        hand[0] != hand[2],
    ensures
        -0x4000_0000 <= 1200 * strength_units(hand, Seq::empty()) - opening_value(hand) * ONE
            <= 0x4000_0000,
{
    vstd::arithmetic::power2::lemma2_to64();
    crate::cards::lemma_ranks(hand[0]);
    crate::cards::lemma_ranks(hand[2]);
    let first = card_at(hand, 0);
    let second = card_at(hand, 2);
    let high = high_rank(first, second) as int;
    let low = low_rank(first, second) as int;
    lemma_unpaired_close(high, low, first.suit == second.suit);
}

/// Of two unpaired hands before the board, the one that is worth more is the
/// stronger one.
pub proof fn lemma_worth_more_is_stronger(hand: Seq<char>, other: Seq<char>)
    requires
        readable(hand, Seq::empty()),
        readable(other, Seq::empty()),
        hand[0] != hand[2],
        other[0] != other[2],
        opening_value(hand) > opening_value(other),
    ensures
        strength_units(hand, Seq::empty()) > strength_units(other, Seq::empty()),
{
    lemma_unpaired_value(hand);
    lemma_unpaired_value(other);
}

/// Before the board, of two hands with the same first card and a second card of
/// a lower rank, no neighbour, that with the higher second card is stronger
/// where both or neither are of one suit; and one suit is stronger than two
/// with the same ranks.
pub proof fn lemma_second_card_and_suit(hand: Seq<char>, other: Seq<char>)
    requires
        readable(hand, Seq::empty()),
        readable(other, Seq::empty()),
        hand[0] == other[0],
        rank_of(hand[2]) + 1 < rank_of(hand[0]),
        rank_of(other[2]) <= rank_of(hand[2]),
        other[1] == other[3] ==> hand[1] == hand[3],
        rank_of(other[2]) < rank_of(hand[2]) || (hand[1] == hand[3] && other[1] != other[3]),
    ensures
        strength_units(hand, Seq::empty()) > strength_units(other, Seq::empty()),
{
    lemma_worth_more_is_stronger(hand, other);
}

/// Before the board, the higher of two pairs is the stronger one.
pub proof fn lemma_higher_pair_is_stronger(hand: Seq<char>, other: Seq<char>)
    requires
        readable(hand, Seq::empty()),
        readable(other, Seq::empty()),
        hand[0] == hand[2],
        other[0] == other[2],
        rank_of(hand[0]) > rank_of(other[0]),
    ensures
        strength_units(hand, Seq::empty()) > strength_units(other, Seq::empty()),
{
    lemma_pair_value(hand);
    lemma_pair_value(other);
}

/// Before the board strengths are summed in binary32: the share of the higher
/// card and that of the lower one, then one suit, then neighbouring ranks; and
/// for a pair, the share of its rank on top of 0.60.
pub proof fn lemma_opening_sum(hand: Seq<char>)
    requires
        readable(hand, Seq::empty()),
    ensures
        ({
            let one = rank_of(hand[0]) as int;
            let two = rank_of(hand[2]) as int;
            let high = vstd::math::max(one, two);
            let low = vstd::math::min(one, two);
            let ranks = plus_units(
                times_units(ratio_units(high, 12), ratio_units(40, 100)),
                times_units(ratio_units(low, 12), ratio_units(20, 100)),
            );
            let suit = plus_units(ranks, ratio_units(10, 100));
            let strength = strength_units(hand, Seq::empty());
            let suited = hand[1] == hand[3];
            &&& hand[0] == hand[2] ==> strength == plus_units(
                ratio_units(60, 100),
                times_units(ratio_units(one, 12), ratio_units(35, 100)),
            )
            &&& hand[0] != hand[2] && high - low != 1 && high > 0 ==> strength == if suited {
                suit
            } else {
                ranks
            }
            &&& hand[0] != hand[2] && high - low == 1 ==> strength == plus_units(
                if suited {
                    suit
                } else {
                    ranks
                },
                ratio_units(5, 100),
            )
            &&& hand[0] != hand[2] && high == 0 ==> strength == ratio_units(
                if suited {
                    10
                } else {
                    5
                },
                100,
            )
        }),
{
    crate::cards::lemma_ranks(hand[0]);
    crate::cards::lemma_ranks(hand[2]);
    let one = rank_of(hand[0]) as int;
    let two = rank_of(hand[2]) as int;
    if hand[0] != hand[2] {
        let high = vstd::math::max(one, two);
        let low = vstd::math::min(one, two);
        lemma_unpaired_close(high, low, hand[1] == hand[3]);
        if high == 0 {
            let ten = ratio_units(10, 100);
            assert(ratio_units(0, 12) == 0);
            assert(0 * ratio_units(40, 100) == 0 && 0 * ratio_units(20, 100) == 0);
            assert(times_units(0, ratio_units(40, 100)) == 0);
            assert(times_units(0, ratio_units(20, 100)) == 0);
            assert(plus_units(0, 0) == 0);
            lemma_ratio_range(10, 100);
            lemma_rounded_representable(10 * ONE, 100);
            lemma_rounded_bounds(ten, 1, ten);
        } else {
            assert(low < high);
        }
    }
}

/// On a board a hand is as strong as what it makes of the board: from 0.95 for
/// a flush down to 0.15 for nothing.
pub proof fn lemma_board_value(hand: Seq<char>, board: Seq<char>)
    requires
        board.len() > 0,
    ensures
        ({
            let first = Card { rank: rank_of(hand[0]), suit: hand[1] };
            let second = Card { rank: rank_of(hand[2]), suit: hand[3] };
            let strength = strength_units(hand, board);
            match holding_of(first, second, board_of(board)) {
                Holding::Flush => strength == ratio_units(95, 100),
                Holding::Straight => strength == ratio_units(93, 100),
                Holding::Trips => strength == ratio_units(90, 100),
                Holding::TwoPair => strength == ratio_units(85, 100),
                Holding::Overpair => strength == ratio_units(80, 100),
                Holding::TopPair => strength == ratio_units(75, 100),
                Holding::FlushDraw => strength == ratio_units(65, 100),
                Holding::MiddlePair => strength == ratio_units(60, 100),
                Holding::StraightDraw => strength == ratio_units(55, 100),
                Holding::Underpair => strength == ratio_units(50, 100),
                Holding::LowPair => strength == ratio_units(40, 100),
                Holding::HighCard => strength == ratio_units(35, 100),
                Holding::Nothing => strength == ratio_units(15, 100),
            }
        }),
{
}

} // verus!
