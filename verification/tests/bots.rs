use poker_arena::bot::{
    arena, damage, draw_seed, error_chance, mix, name_action, optimal, seeded_arena, seeded_move,
    simulate_bot_action, timed_arena, timed_move, ArenaQuery, ArenaTable, BotTurn, SeedError,
};
use poker_arena::single::{Single, ONE};
use poker_arena::strategy::Strategy;

const TABLES: [[u32; 4]; 8] = [
    [90, 5, 5, 0],
    [30, 60, 10, 0],
    [0, 60, 30, 10],
    [0, 10, 40, 50],
    [0, 85, 10, 5],
    [0, 65, 25, 10],
    [0, 20, 60, 20],
    [0, 5, 35, 60],
];

fn float(number: Single) -> f32 {
    number.units as f32 / ONE as f32
}

#[test]
fn bot_optimal_action_is_the_first_of_the_heaviest() {
    let best: Vec<usize> = TABLES
        .iter()
        .map(|weights| optimal(&Strategy { weights: *weights }))
        .collect();
    assert_eq!(best, vec![0, 1, 1, 3, 1, 1, 2, 3]);
    assert_eq!(optimal(&Strategy { weights: [0, 0, 0, 0] }), 0);
    assert_eq!(optimal(&Strategy { weights: [10, 40, 10, 40] }), 1);
}

#[test]
fn bot_damage_is_the_binary32_difference() {
    for weights in TABLES {
        let strategy = Strategy { weights };
        let reals = weights.map(|weight| weight as f32 / 100.0);
        let peak = reals.iter().fold(0.0f32, |a, b| a.max(*b));
        for action in 0..4 {
            let cost = damage(&strategy, action);
            assert_eq!(float(cost), (peak - reals[action]) * 100.0);
            assert_eq!(
                cost.round(),
                *weights.iter().max().unwrap() as i32 - weights[action] as i32
            );
        }
    }
}

#[test]
fn bot_error_chance_is_the_binary32_formula() {
    for elo in -50..2600 {
        let wanted = (1.0 - (elo as f32 / 2100.0)).clamp(0.05, 0.60);
        assert_eq!(float(error_chance(elo)), wanted);
    }
    for elo in [i32::MIN, -2100, 1_000_000_000, i32::MAX] {
        let wanted = (1.0 - (elo as f32 / 2100.0)).clamp(0.05, 0.60);
        assert_eq!(float(error_chance(elo)), wanted);
    }
}

#[test]
fn bot_mix_is_one_generator_step() {
    assert_eq!(mix(0), 1);
    assert_eq!(mix(1), 6364136223846793006);
    assert_eq!(mix(3), 645664597830827400);
}

#[test]
fn bot_moves_follow_the_seed() {
    for table in TABLES {
        let strategy = Strategy { weights: table };
        let reals = table.map(|weight| weight as f32 / 100.0);
        let best = optimal(&strategy);
        for elo in [0, 800, 861, 1000, 1200, 1500, 1800, 1995, 2100, 2500] {
            for step in 0..400u64 {
                let seed = step.wrapping_mul(0x9E37_79B9_7F4A_7C15);
                let random = seed.wrapping_mul(6364136223846793005).wrapping_add(1);
                let roll = ((random >> 33) % 100) as f32 / 100.0;
                let chance = (1.0 - (elo as f32 / 2100.0)).clamp(0.05, 0.60);
                let choice = if roll < chance {
                    let drawn = (random % 4) as usize;
                    if drawn == best {
                        (drawn + 1) % 4
                    } else {
                        drawn
                    }
                } else {
                    best
                };
                let made = seeded_move(&strategy, elo, seed);
                assert_eq!(made.action, name_action(choice));
                assert_eq!(float(made.damage), (reals[best] - reals[choice]) * 100.0);
            }
        }
    }
}

#[test]
fn bot_that_errs_plays_something_else() {
    let strategy = Strategy { weights: [0, 85, 10, 5] };
    let mut missed = 0;
    for seed in 0..2000u64 {
        let made = seeded_move(&strategy, 800, seed.wrapping_mul(0x9E37_79B9_7F4A_7C15));
        if made.action == "CALL" {
            assert_eq!(made.damage.units, 0);
        } else {
            missed += 1;
            assert!(made.damage.units > 0);
        }
    }
    assert!(missed > 1000 && missed < 1400);
}

#[test]
fn bot_that_is_stronger_errs_less() {
    let strategy = Strategy { weights: [0, 85, 10, 5] };
    for seed in 0..2000u64 {
        let seed = seed.wrapping_mul(0x9E37_79B9_7F4A_7C15);
        let strong = seeded_move(&strategy, 2100, seed);
        let weak = seeded_move(&strategy, 1000, seed);
        assert!(strong.action == "CALL" || weak.action != "CALL");
    }
}

#[test]
fn bot_actions_have_names() {
    let names: Vec<String> = (0..4).map(name_action).collect();
    assert_eq!(names, vec!["FOLD", "CALL", "RAISE 33%", "RAISE 75%"]);
}

#[test]
fn bot_seed_comes_from_the_low_half_of_the_clock() {
    assert_eq!(draw_seed(None, 5), Err(SeedError::BeforeEpoch));
    assert_eq!(draw_seed(Some(7), 5), Ok(12));
    assert_eq!(draw_seed(Some((1u128 << 64) + 7), 5), Ok(12));
    assert_eq!(draw_seed(Some(u64::MAX as u128), 0), Ok(u64::MAX));
    assert_eq!(draw_seed(Some(u64::MAX as u128), 1), Err(SeedError::Overflow));
}

#[test]
fn bot_moves_by_the_clock() {
    let strategy = Strategy { weights: [0, 85, 10, 5] };
    let mut seen: Vec<String> = Vec::new();
    for offset in 0..400u64 {
        let made = simulate_bot_action(&strategy, 800, offset * 1000).unwrap();
        let cost = (0..4)
            .find(|action| name_action(*action) == made.action)
            .map(|action| damage(&strategy, action));
        assert_eq!(cost, Some(made.damage));
        if !seen.contains(&made.action) {
            seen.push(made.action);
        }
    }
    assert!(seen.len() > 1);
}

#[test]
fn arena_answers_with_strategy_and_move() {
    let query = ArenaQuery {
        hand: "9h4d".to_string(),
        board: Some("9c8s2h".to_string()),
        pos: None,
        bot_elo: 1500,
    };
    let reply = seeded_arena(&query, 42);
    assert_eq!(reply.strategy.weights, [0, 20, 60, 20]);
    let made = seeded_move(&reply.strategy, 1500, 42);
    assert_eq!(reply.bot.action, made.action);
    assert_eq!(reply.bot.damage, made.damage);
    let reply = arena(&query).unwrap();
    assert_eq!(reply.strategy.weights, [0, 20, 60, 20]);
}

#[test]
fn bot_moves_at_a_reading_of_the_clock() {
    let strategy = Strategy { weights: [0, 85, 10, 5] };
    for nanos in 0..200u128 {
        let made = timed_move(&strategy, 800, 1000, Some(nanos)).unwrap();
        let wanted = seeded_move(&strategy, 800, nanos as u64 + 1000);
        assert_eq!(made.action, wanted.action);
        assert_eq!(made.damage, wanted.damage);
    }
    let early = timed_move(&strategy, 800, 1000, None);
    assert_eq!(early.err(), Some(SeedError::BeforeEpoch));
    let late = timed_move(&strategy, 800, 1000, Some(u64::MAX as u128));
    assert_eq!(late.err(), Some(SeedError::Overflow));
}

#[test]
fn arena_answers_at_a_reading_of_the_clock() {
    let query = ArenaQuery {
        hand: "9h4d".to_string(),
        board: Some("9c8s2h".to_string()),
        pos: None,
        bot_elo: 1500,
    };
    for nanos in [0, 42, u64::MAX as u128] {
        let reply = timed_arena(&query, Some(nanos)).unwrap();
        let wanted = seeded_arena(&query, nanos as u64);
        assert_eq!(reply.strategy.weights, wanted.strategy.weights);
        assert_eq!(reply.bot.action, wanted.bot.action);
        assert_eq!(reply.bot.damage, wanted.bot.damage);
    }
    assert_eq!(timed_arena(&query, None).err(), Some(SeedError::BeforeEpoch));
}

#[test]
fn arena_table_seats_seven_bots() {
    let mut table = ArenaTable::open("9h4d", "9c8s2h", "BTN");
    assert_eq!(table.strategy.weights, [0, 20, 60, 20]);
    let elos = [800, 1000, 1200, 1500, 1800, 2100, 2500];
    for (i, elo) in elos.iter().enumerate() {
        let turn = table.next_turn(true).unwrap();
        assert_eq!(
            turn,
            BotTurn {
                pause_millis: 800,
                bot_id: i + 1,
                elo: *elo,
                offset: (i * 1000) as u64
            }
        );
        assert!(table.play(&turn).is_ok());
    }
    assert_eq!(table.next_turn(true), None);
    assert_eq!(table.next_turn(true), None);
}

#[test]
fn arena_table_closes_when_nobody_listens() {
    let mut table = ArenaTable::open("9h4d", "", "BTN");
    assert!(table.next_turn(true).is_some());
    assert_eq!(table.next_turn(false), None);
    assert_eq!(table.next_turn(true), None);
}
