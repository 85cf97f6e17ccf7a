use poker_arena::cards::{is_readable, read_board, read_hand, Card, Holding};
use poker_arena::single::{Single, ONE};
use poker_arena::strategy::{get_smart_gto_strategy, solve, SolveQuery};
use poker_arena::strength::{evaluate_poker_strength, pair_strength, unpaired_strength};

fn float(number: Single) -> f32 {
    number.units as f32 / ONE as f32
}

fn strength(hand: &str, board: &str) -> f32 {
    float(evaluate_poker_strength(hand, board))
}

fn weights(hand: &str, board: &str, history: &str) -> [u32; 4] {
    get_smart_gto_strategy(hand, board, history, "BTN").weights
}

/// A generator of test inputs.
fn next(state: &mut u64) -> usize {
    *state = state
        .wrapping_mul(6364136223846793005)
        .wrapping_add(1442695040888963407);
    (*state >> 33) as usize
}

#[test]
fn single_ratio_is_binary32_division() {
    for den in 1..=200u32 {
        for num in 0..=den {
            assert_eq!(float(Single::ratio(num, den)), num as f32 / den as f32);
        }
    }
    assert_eq!(Single::ratio(1, 2).units, 0x80_0000_0000);
    assert_eq!(Single::ratio(1, 3).units, 366503886848);
}

#[test]
fn single_operations_are_those_of_binary32() {
    for a in 0..=100u32 {
        for b in 0..=a {
            let (x, y) = (Single::ratio(a, 100), Single::ratio(b, 100));
            let (p, q) = (a as f32 / 100.0, b as f32 / 100.0);
            assert_eq!(float(x.plus(y)), p + q);
            assert_eq!(float(x.minus(y)), p - q);
            assert_eq!(float(x.times(y)), p * q);
            assert_eq!(y.less(x), q < p);
            let cost = x.minus(y).times(Single::ratio(100, 1));
            assert_eq!(float(cost), (p - q) * 100.0);
            assert_eq!(cost.round(), ((p - q) * 100.0).round() as i32);
            assert_eq!(cost.round(), (a - b) as i32);
        }
    }
}

#[test]
fn single_clamp_keeps_to_the_bounds() {
    let (low, high) = (Single::ratio(1, 4), Single::ratio(3, 4));
    assert_eq!(Single::ratio(1, 8).clamp(low, high), low);
    assert_eq!(Single::ratio(7, 8).clamp(low, high), high);
    assert_eq!(Single::ratio(1, 2).clamp(low, high), Single::ratio(1, 2));
}

#[test]
fn single_rounds_halves_up() {
    assert_eq!(Single::ratio(5, 2).round(), 3);
    assert_eq!(Single::ratio(7, 2).round(), 4);
    assert_eq!(Single::ratio(9, 4).round(), 2);
    assert_eq!(Single::ratio(0, 1).round(), 0);
}

#[test]
fn strength_before_the_board_is_the_binary32_formula() {
    for high in 0..=12u32 {
        let pair = 0.60 + (high as f32 / 12.0) * 0.35;
        assert_eq!(float(pair_strength(high)), pair);
        for low in 0..=high {
            for suited in [false, true] {
                let mut wanted = (high as f32 / 12.0) * 0.40 + (low as f32 / 12.0) * 0.20;
                if suited {
                    wanted += 0.10;
                }
                if high - low == 1 {
                    wanted += 0.05;
                }
                assert_eq!(
                    float(unpaired_strength(high, low, suited)),
                    wanted.clamp(0.05, 0.95)
                );
            }
        }
    }
}

#[test]
fn strength_of_starting_hands() {
    assert_eq!(strength("AhAd", ""), 0.60 + 0.35);
    assert_eq!(strength("2h2d", ""), 0.60);
    assert_eq!(strength("AhKh", ""), {
        let ranks: f32 = 0.40 + (11.0f32 / 12.0) * 0.20;
        ranks + 0.10 + 0.05
    });
    assert_eq!(strength("3h2d", ""), {
        let ranks: f32 = (1.0f32 / 12.0) * 0.40;
        ranks + 0.05
    });
    assert_eq!(strength("4h2d", ""), (2.0f32 / 12.0) * 0.40);
}

#[test]
fn strength_pair_is_by_letter_before_the_board_and_by_rank_on_it() {
    assert_eq!(strength("xh2d", ""), 0.05);
    assert_eq!(strength("xhxd", ""), 0.60);
    assert_eq!(strength("xh2d", "AcKc9s"), 0.50);
}

#[test]
fn strength_of_every_holding() {
    assert_eq!(strength("AhKh", "2h5h9h"), 0.95);
    assert_eq!(strength("9h8d", "7cTs6h"), 0.93);
    assert_eq!(strength("Ah2d", "3c4s5h"), 0.93);
    assert_eq!(strength("9h8d", "9c9s2h"), 0.90);
    assert_eq!(strength("9h8d", "9c8s2h"), 0.85);
    assert_eq!(strength("9h9d", "9c8s2h"), 0.85);
    assert_eq!(strength("QhQd", "9c8s2h"), 0.80);
    assert_eq!(strength("9h4d", "9c8s2h"), 0.75);
    assert_eq!(strength("8h4d", "9c8s2h"), 0.60);
    assert_eq!(strength("2h4d", "9c8s2h"), 0.40);
    assert_eq!(strength("7h7d", "9cQs2h"), 0.50);
    assert_eq!(strength("AhKh", "2h5h9c"), 0.65);
    assert_eq!(strength("9h8d", "7cTs2h"), 0.55);
    assert_eq!(strength("AhKd", "2c5s9h"), 0.35);
    assert_eq!(strength("4hTd", "2c7s9h"), 0.15);
}

#[test]
fn strength_of_odd_boards() {
    assert_eq!(strength("AhAd", "K"), 0.80);
    assert_eq!(strength("AhKd", "K"), 0.35);
    assert_eq!(strength("9h8d", "9c9s9d"), 0.15);
    assert_eq!(strength("9h9d", "9c9s9d"), 0.50);
    assert_eq!(strength("2hTdzzz", "2c7s9h"), 0.40);
}

#[test]
fn strength_holds_against_sorted_ranks() {
    let letters = ['2', '3', '4', '5', '6', '7', '8', '9', 'T', 'J', 'Q', 'K', 'A'];
    let suits = ['h', 'd', 'c', 's'];
    let mut state: u64 = 7;
    for _ in 0..20000 {
        let count = 2 + 3 + next(&mut state) % 3;
        let narrow = 5 + next(&mut state) % 9;
        let shift = next(&mut state) % (14 - narrow);
        let suit_count = 1 + next(&mut state) % 4;
        let cards: Vec<(usize, char)> = (0..count)
            .map(|_| {
                (
                    shift + next(&mut state) % narrow,
                    suits[next(&mut state) % suit_count],
                )
            })
            .collect();
        let text: String = cards
            .iter()
            .flat_map(|(rank, suit)| [letters[*rank], *suit])
            .collect();
        let (hand, board) = text.split_at(4);

        let mut flush = 0;
        for hole in 0..2 {
            flush = flush.max(cards.iter().filter(|card| card.1 == cards[hole].1).count());
        }
        let mut ranks: Vec<i32> = cards.iter().map(|card| card.0 as i32).collect();
        ranks.sort();
        ranks.dedup();
        let mut longest = 1;
        let mut run = 1;
        for pair in ranks.windows(2) {
            run = if pair[1] - pair[0] == 1 { run + 1 } else { 1 };
            longest = longest.max(run);
        }
        if [0, 1, 2, 3, 12].iter().all(|rank| ranks.contains(rank)) {
            longest = 5;
        }
        let mut on_board: Vec<usize> = cards[2..].iter().map(|card| card.0).collect();
        on_board.sort_by(|a, b| b.cmp(a));
        let matches = |rank: usize| on_board.iter().filter(|other| **other == rank).count();
        let (a, b) = (cards[0].0, cards[1].0);
        let (one, other) = (matches(a), matches(b));
        let wanted: f32 = if flush >= 5 {
            0.95
        } else if longest >= 5 {
            0.93
        } else if one == 2 || other == 2 {
            0.90
        } else if one == 1 && other == 1 {
            0.85
        } else if one.max(other) == 1 {
            let paired = if one == 1 { a } else { b };
            if paired >= on_board[0] {
                0.75
            } else if paired >= on_board[1] {
                0.60
            } else {
                0.40
            }
        } else if a == b {
            if a > on_board[0] {
                0.80
            } else {
                0.50
            }
        } else if flush == 4 {
            0.65
        } else if longest == 4 {
            0.55
        } else if a.max(b) >= 10 {
            0.35
        } else {
            0.15
        };
        assert_eq!(strength(hand, board), wanted, "{} on {}", hand, board);
    }
}

#[test]
fn strength_does_not_depend_on_order() {
    assert_eq!(strength("KhAd", "9c8s2h"), strength("AdKh", "2h9c8s"));
    assert_eq!(strength("8hTd", "9c8s2h"), strength("Td8h", "8s2h9c"));
    assert_eq!(strength("Kh9h", ""), strength("9hKh", ""));
}

#[test]
fn strength_stays_between_a_twentieth_and_one() {
    for hand in ["3h2d", "AhAd", "4h2d", "AhKh"] {
        for board in ["", "AhKhQh", "2c7s9h"] {
            let value = strength(hand, board);
            assert!(0.05 <= value && value <= 1.0);
        }
    }
}

#[test]
fn cards_are_read_two_letters_at_a_time() {
    assert_eq!(
        read_hand("AhTd"),
        (Card { rank: 12, suit: 'h' }, Card { rank: 8, suit: 'd' })
    );
    assert_eq!(
        read_board("2cKs9"),
        vec![Card { rank: 0, suit: 'c' }, Card { rank: 11, suit: 's' }]
    );
    assert!(read_board("").is_empty());
}

#[test]
fn cards_are_readable_letter_by_letter() {
    assert!(is_readable("AhKd", ""));
    assert!(is_readable("AhKdż", "2c"));
    assert!(!is_readable("AhK", ""));
    assert!(!is_readable("AżKd", ""));
    assert!(!is_readable("AhKd", "2ż"));
}

#[test]
fn holdings_are_worth_their_hundredths() {
    assert_eq!(Holding::Flush.percent(), 95);
    assert_eq!(Holding::Nothing.percent(), 15);
}

#[test]
fn strategy_without_a_bet() {
    assert_eq!(weights("4hTd", "2c7s9h", ""), [0, 85, 10, 5]);
    assert_eq!(weights("8h4d", "9c8s2h", "C"), [0, 65, 25, 10]);
    assert_eq!(weights("9h4d", "9c8s2h", ""), [0, 20, 60, 20]);
    assert_eq!(weights("9h8d", "9c8s2h", ""), [0, 5, 35, 60]);
}

#[test]
fn strategy_facing_a_bet() {
    assert_eq!(weights("4hTd", "2c7s9h", "CB"), [90, 5, 5, 0]);
    assert_eq!(weights("8h4d", "9c8s2h", "S"), [30, 60, 10, 0]);
    assert_eq!(weights("9h4d", "9c8s2h", "BR"), [0, 60, 30, 10]);
    assert_eq!(weights("9h8d", "9c8s2h", "B"), [0, 10, 40, 50]);
    assert_eq!(weights("AhKh", "2h5h9c", "B"), [0, 60, 30, 10]);
}

#[test]
fn strategy_before_the_board_faces_any_action() {
    assert_eq!(weights("AhAd", "", ""), [0, 5, 35, 60]);
    assert_eq!(weights("AhAd", "", "C"), [0, 10, 40, 50]);
    assert_eq!(weights("3h2d", "", "C"), [90, 5, 5, 0]);
    assert_eq!(weights("3h2d", "", ""), [0, 85, 10, 5]);
}

#[test]
fn strategy_weights_add_up() {
    for hand in ["3h2d", "8h4d", "9h4d", "9h8d", "AhAd"] {
        for history in ["", "B"] {
            let list = weights(hand, "9c8s2h", history);
            assert_eq!(list.iter().sum::<u32>(), 100);
            assert!(history == "B" || list[0] == 0);
        }
    }
}

/// From the weaker hand to the stronger one, folds fall and raises grow.
#[test]
fn strategy_raises_more_with_stronger_hands() {
    let hands = [
        ("4hTd", "2c7s9h"),
        ("8h4d", "9c8s2h"),
        ("9h4d", "9c8s2h"),
        ("9h8d", "9c8s2h"),
    ];
    for (history, raises) in [("", [15, 35, 80, 95]), ("B", [5, 10, 40, 90])] {
        let lists: Vec<[u32; 4]> = hands
            .iter()
            .map(|(hand, board)| weights(hand, board, history))
            .collect();
        for i in 0..4 {
            assert_eq!(lists[i][2] + lists[i][3], raises[i]);
        }
        for i in 1..4 {
            assert!(lists[i][0] <= lists[i - 1][0]);
            assert!(lists[i][3] >= lists[i - 1][3]);
        }
    }
}

#[test]
fn solve_answers_with_strategy_and_equity() {
    let reply = solve(&SolveQuery {
        hand: "9h4d".to_string(),
        board: Some("9c8s2h".to_string()),
        pos: None,
        history: Some("B".to_string()),
    });
    assert_eq!(reply.strategy.weights, [0, 60, 30, 10]);
    assert_eq!(float(reply.equity), 0.75);
    let reply = solve(&SolveQuery {
        hand: "2h2d".to_string(),
        board: None,
        pos: Some("UTG".to_string()),
        history: None,
    });
    assert_eq!(reply.strategy.weights, [0, 65, 25, 10]);
    assert_eq!(float(reply.equity), 0.60);
}
