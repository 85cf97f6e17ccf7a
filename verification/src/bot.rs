//! Simulated opponents: they play the strategy's best action, or miss it now
//! and then, the weaker ones more often.

use vstd::prelude::*;
use crate::cards::readable;
use crate::single::{
    clamp_units, lemma_rounded_bounds, lemma_rounded_close, lemma_rounded_monotone,
    lemma_rounded_representable, lemma_small_wholes, minus_units, ratio_units, representable,
    times_units, whole, Single, ONE,
};
use crate::strategy::{
    get_smart_gto_strategy, is_strategy, or_empty, smart_strategy, text_or_empty, Strategy,
};

verus! {

/// The first of the actions with the largest weight.
pub open spec fn optimal_action(weights: Seq<u32>) -> int {
    if weights[0] >= weights[1] && weights[0] >= weights[2] && weights[0] >= weights[3] {
        0
    } else if weights[1] >= weights[2] && weights[1] >= weights[3] {
        1
    } else if weights[2] >= weights[3] {
        2
    } else {
        3
    }
}

/// The largest weight.
pub open spec fn peak_weight(weights: Seq<u32>) -> u32 {
    weights[optimal_action(weights)]
}

/// What it costs to play an action instead of the optimal one: a hundred
/// times the difference of their probabilities.
pub open spec fn damage_units(weights: Seq<u32>, action: int) -> int {
    times_units(
        minus_units(
            ratio_units(peak_weight(weights) as int, 100),
            ratio_units(weights[action] as int, 100),
        ),
        100 * ONE,
    )
}

/// How likely a bot is to miss the optimal action: from 0.60 for a beginner
/// down to 0.05, by a full one for 2100 rating points.
pub open spec fn error_chance_units(elo: int) -> int {
    if elo <= 0 {
        ratio_units(60, 100)
    } else if elo >= 2100 {
        ratio_units(5, 100)
    } else {
        clamp_units(
            minus_units(ONE as int, ratio_units(elo, 2100)),
            ratio_units(5, 100),
            ratio_units(60, 100),
        )
    }
}

/// One step of a linear congruential generator.
pub open spec fn mixed(seed: u64) -> int {
    (seed * 6364136223846793005 + 1) % 0x1_0000_0000_0000_0000
}

/// The roll of a hundred-sided die, from 0, that a seed gives.
pub open spec fn roll_of(seed: u64) -> int {
    (mixed(seed) / 0x2_0000_0000) % 100
}

/// Whether a bot misses the optimal action.
pub open spec fn errs(elo: int, seed: u64) -> bool {
    ratio_units(roll_of(seed), 100) < error_chance_units(elo)
}

/// The action that a bot plays by mistake.
pub open spec fn fallback_action(weights: Seq<u32>, seed: u64) -> int {
    let drawn = mixed(seed) % 4;
    if drawn == optimal_action(weights) {
        (drawn + 1) % 4
    } else {
        drawn
    }
}

/// The action that a bot plays.
pub open spec fn bot_choice(weights: Seq<u32>, elo: int, seed: u64) -> int {
    if errs(elo, seed) {
        fallback_action(weights, seed)
    } else {
        optimal_action(weights)
    }
}

/// What an action is called.
pub open spec fn action_name(action: int) -> Seq<char> {
    if action == 0 {
        "FOLD"@
    } else if action == 1 {
        "CALL"@
    } else if action == 2 {
        "RAISE 33%"@
    } else {
        "RAISE 75%"@
    }
}

/// Hundredths are rounded by little, and so are the damages made of them.
proof fn lemma_damage(peak: int, weight: int)
    requires
        0 <= weight <= peak <= 100,
    ensures
        0 <= ratio_units(weight, 100) <= ratio_units(peak, 100) <= ONE,
        ({
            let gap = minus_units(ratio_units(peak, 100), ratio_units(weight, 100));
            let damage = times_units(gap, 100 * ONE);
            &&& 0 <= gap <= ONE
            &&& gap * (100 * ONE) <= ONE * (128 * ONE)
            &&& gap * (100 * ONE) == 0 || gap * (100 * ONE) >= ONE * 0x80_0000
            &&& (peak - weight) * ONE - 0x200_0000 <= damage <= (peak - weight) * ONE + 0x200_0000
            &&& weight == peak ==> damage == 0
        }),
{
    vstd::arithmetic::power2::lemma2_to64();
    let a = ratio_units(peak, 100);
    let b = ratio_units(weight, 100);
    let gap = minus_units(a, b);
    let damage = times_units(gap, 100 * ONE);
    lemma_small_wholes();
    lemma_rounded_close(peak * ONE, 100, 17);
    lemma_rounded_close(weight * ONE, 100, 17);
    lemma_rounded_monotone(weight * ONE, peak * ONE, 100);
    lemma_rounded_bounds(peak * ONE, 100, ONE as int);
    lemma_rounded_representable(weight * ONE, 100);
    lemma_rounded_close(a - b, 1, 17);
    lemma_rounded_bounds(a - b, 1, ONE as int);
    lemma_rounded_representable(a - b, 1);
    assert(gap * (100 * ONE) == (100 * gap) * ONE) by (nonlinear_arith);
    lemma_rounded_close(gap * (100 * ONE), ONE as int, 23);
    assert(damage * ONE == ONE * damage) by (nonlinear_arith);
    if weight == peak {
        assert(gap == 0);
    }
}

/// A move of a bot.
#[derive(Debug)]
pub struct BotMove {
    pub action: String,
    pub damage: Single,
}

/// Why no seed could be drawn from the clock.
#[derive(Clone, Copy, Debug, PartialEq, Eq, Structural)]
pub enum SeedError {
    /// The clock stands before 1970.
    BeforeEpoch,
    /// The clock and the offset together do not fit.
    Overflow,
}

/// Whether a move is the one that a bot makes with a seed.
pub open spec fn is_move(made: BotMove, weights: Seq<u32>, elo: int, seed: u64) -> bool {
    let choice = bot_choice(weights, elo, seed);
    &&& made.action@ == action_name(choice)
    &&& made.damage@ == damage_units(weights, choice)
    &&& made.damage.wf()
}

/// The first of the actions with the largest weight.
pub fn optimal(strategy: &Strategy) -> (action: usize)
    requires
        strategy.wf(),
    ensures
        action == optimal_action(strategy@),
        action < 4,
{
    let mut best: usize = 0;
    let mut i: usize = 1;
    while i < 4
        invariant
            1 <= i <= 4,
            best < i,
            strategy@.len() == 4,
            forall|j: int| 0 <= j < i ==> #[trigger] strategy@[j] <= strategy@[best as int],
            forall|j: int| 0 <= j < best ==> #[trigger] strategy@[j] < strategy@[best as int],
        decreases 4 - i,
    {
        if strategy.weights[i] > strategy.weights[best] {
            best = i;
        }
        i = i + 1;
    }
    assert(strategy@[0] <= strategy@[best as int] && strategy@[1] <= strategy@[best as int]
        && strategy@[2] <= strategy@[best as int] && strategy@[3] <= strategy@[best as int]);
    best
}

/// What it costs to play an action instead of the optimal one.
pub fn damage(strategy: &Strategy, action: usize) -> (damage: Single)
    requires
        strategy.wf(),
        action < 4,
    ensures
        damage@ == damage_units(strategy@, action as int),
        damage.wf(),
{
    let best = optimal(strategy);
    proof {
        lemma_peak(strategy@, action as int);
        lemma_damage(peak_weight(strategy@) as int, strategy@[action as int] as int);
    }
    let top = Single::ratio(strategy.weights[best], 100);
    let own = Single::ratio(strategy.weights[action], 100);
    let hundred = Single::ratio(100, 1);
    proof {
        lemma_hundred();
    }
    top.minus(own).times(hundred)
}

/// No weight exceeds the peak, and only the optimal action and its equals
/// reach it.
proof fn lemma_peak(weights: Seq<u32>, action: int)
    requires
        is_strategy(weights),
        0 <= action < 4,
    ensures
        0 <= optimal_action(weights) < 4,
        weights[action] <= peak_weight(weights) <= 100,
{
}

proof fn lemma_hundred()
    ensures
        ratio_units(100, 1) == 100 * ONE,
        representable(100 * ONE),
{
    reveal_with_fuel(representable, 25);
    lemma_rounded_bounds(100 * ONE, 1, 100 * ONE);
}

/// How likely a bot is to miss the optimal action.
pub fn error_chance(elo: i32) -> (chance: Single)
    ensures
        chance@ == error_chance_units(elo as int),
        chance.wf(),
{
    let least = Single::ratio(5, 100);
    let most = Single::ratio(60, 100);
    if elo <= 0 {
        most
    } else if elo >= 2100 {
        least
    } else {
        proof {
            lemma_small_wholes();
            lemma_rounded_bounds(elo * ONE, 2100, ONE as int);
            lemma_rounded_bounds(1 * ONE, 1, ONE as int);
            lemma_rounded_monotone(5 * ONE, 60 * ONE, 100);
        }
        let one = Single::ratio(1, 1);
        one.minus(Single::ratio(elo as u32, 2100)).clamp(least, most)
    }
}

/// One step of a linear congruential generator.
pub fn mix(seed: u64) -> (mix: u64)
    ensures
        mix == mixed(seed),
{
    let product = seed.wrapping_mul(6364136223846793005);
    let mix = product.wrapping_add(1);
    assert(mix == mixed(seed)) by {
        let exact = seed * 6364136223846793005;
        assert(product == exact % 0x1_0000_0000_0000_0000);
        vstd::arithmetic::div_mod::lemma_add_mod_noop(exact, 1, 0x1_0000_0000_0000_0000);
    }
    mix
}

/// What an action is called.
pub fn name_action(action: usize) -> (name: String)
    requires
        action < 4,
    ensures
        name@ == action_name(action as int),
{
    if action == 0 {
        "FOLD".to_string()
    } else if action == 1 {
        "CALL".to_string()
    } else if action == 2 {
        "RAISE 33%".to_string()
    } else {
        "RAISE 75%".to_string()
    }
}

/// The move that a bot makes with a seed.
pub fn seeded_move(strategy: &Strategy, bot_elo: i32, seed: u64) -> (made: BotMove)
    requires
        strategy.wf(),
    ensures
        is_move(made, strategy@, bot_elo as int, seed),
{
    let best = optimal(strategy);
    let drawn = mix(seed);
    let shifted = drawn >> 33;
    assert(shifted == drawn / 0x2_0000_0000) by (bit_vector)
        requires
            shifted == drawn >> 33,
    ;
    let roll = (shifted % 100) as u32;
    let choice = if Single::ratio(roll, 100).less(error_chance(bot_elo)) {
        let fallback = (drawn % 4) as usize;
        if fallback == best {
            (fallback + 1) % 4
        } else {
            fallback
        }
    } else {
        best
    };
    BotMove { action: name_action(choice), damage: damage(strategy, choice) }
}

/// The nanoseconds since 1970, read by `std::time::SystemTime::elapsed` from
/// the start of 1970. `None` stands for the error that it returns where the
/// clock is before that. Nothing is claimed of the reading: it is the time.
#[verifier::external_body]
fn clock_nanos() -> (nanos: Option<u128>) {
    match std::time::UNIX_EPOCH.elapsed() {
        Ok(since) => Some(since.as_nanos()),
        Err(_) => None,
    }
}

/// The seed that a reading of the clock and an offset give: the low 64 bits
/// of the reading, and the offset.
pub open spec fn seed_of(nanos: u128, offset: u64) -> int {
    (nanos as u64) + offset
}

/// Draws a seed from a reading of the clock.
pub fn draw_seed(nanos: Option<u128>, offset: u64) -> (seed: Result<u64, SeedError>)
    ensures
        match nanos {
            None => seed == Err::<u64, SeedError>(SeedError::BeforeEpoch),
            Some(nanos) => match seed {
                Ok(seed) => seed == seed_of(nanos, offset),
                Err(error) => error == SeedError::Overflow && seed_of(nanos, offset) > u64::MAX,
            },
        },
{
    match nanos {
        None => Err(SeedError::BeforeEpoch),
        Some(nanos) => {
            let low = #[verifier::truncate] (nanos as u64);
            match low.checked_add(offset) {
                None => Err(SeedError::Overflow),
                Some(seed) => Ok(seed),
            }
        },
    }
}

/// What a bot does at a reading of the clock: with a seed the move that it
/// gives, and without one the error that says why there is none.
pub open spec fn is_outcome(
    outcome: Result<BotMove, SeedError>,
    weights: Seq<u32>,
    elo: int,
    offset: u64,
    nanos: Option<u128>,
) -> bool {
    match nanos {
        None => outcome == Err::<BotMove, SeedError>(SeedError::BeforeEpoch),
        Some(nanos) => if seed_of(nanos, offset) > u64::MAX {
            outcome == Err::<BotMove, SeedError>(SeedError::Overflow)
        } else {
            &&& outcome matches Ok(made)
            &&& is_move(made, weights, elo, seed_of(nanos, offset) as u64)
        },
    }
}

/// What a bot does at some reading of the clock.
pub open spec fn is_some_outcome(
    outcome: Result<BotMove, SeedError>,
    weights: Seq<u32>,
    elo: int,
    offset: u64,
) -> bool {
    exists|nanos: Option<u128>| #[trigger] is_outcome(outcome, weights, elo, offset, nanos)
}

/// The move that a bot makes at a reading of the clock.
pub fn timed_move(
    strategy: &Strategy,
    bot_elo: i32,
    offset: u64,
    nanos: Option<u128>,
) -> (outcome: Result<BotMove, SeedError>)
    requires
        strategy.wf(),
    ensures
        is_outcome(outcome, strategy@, bot_elo as int, offset, nanos),
{
    match draw_seed(nanos, offset) {
        Err(error) => Err(error),
        Ok(seed) => Ok(seeded_move(strategy, bot_elo, seed)),
    }
}

/// The move that a bot makes now. The clock decides on the seed, and whether
/// there is one.
pub fn simulate_bot_action(strategy: &Strategy, bot_elo: i32, offset: u64) -> (outcome: Result<
    BotMove,
    SeedError,
>)
    requires
        strategy.wf(),
    ensures
        is_some_outcome(outcome, strategy@, bot_elo as int, offset),
{
    let nanos = clock_nanos();
    timed_move(strategy, bot_elo, offset, nanos)
}

/// No bot errs more often than a beginner or less often than a master.
pub proof fn lemma_error_chance_range(elo: int)
    ensures
        ratio_units(5, 100) <= error_chance_units(elo) <= ratio_units(60, 100),
{
    lemma_rounded_monotone(5 * ONE, 60 * ONE, 100);
}

/// A stronger bot errs on no seed on which a weaker one does not.
pub proof fn lemma_stronger_errs_less(weaker: int, stronger: int, seed: u64)
    requires
        weaker <= stronger,
    ensures
        error_chance_units(stronger) <= error_chance_units(weaker),
        errs(stronger, seed) ==> errs(weaker, seed),
{
    lemma_error_chance_range(weaker);
    lemma_error_chance_range(stronger);
    if 0 < weaker && stronger < 2100 {
        lemma_small_wholes();
        lemma_rounded_monotone(weaker * ONE, stronger * ONE, 2100);
        lemma_rounded_bounds(stronger * ONE, 2100, ONE as int);
        lemma_rounded_monotone(
            ONE - ratio_units(stronger, 2100),
            ONE - ratio_units(weaker, 2100),
            1,
        );
    }
}

/// A bot that errs plays something else than the optimal action; one that
/// does not err takes no damage.
pub proof fn lemma_mistakes(weights: Seq<u32>, elo: int, seed: u64)
    requires
        is_strategy(weights),
    ensures
        0 <= bot_choice(weights, elo, seed) < 4,
        errs(elo, seed) <==> bot_choice(weights, elo, seed) != optimal_action(weights),
        !errs(elo, seed) ==> damage_units(weights, bot_choice(weights, elo, seed)) == 0,
{
    lemma_damage(peak_weight(weights) as int, peak_weight(weights) as int);
}

/// Rounded to a whole number, the damage of an action is the difference of
/// the weights in hundredths: none for an optimal action, at most a hundred.
pub proof fn lemma_damage_whole(weights: Seq<u32>, action: int)
    requires
        is_strategy(weights),
        0 <= action < 4,
    ensures
        whole(damage_units(weights, action)) == peak_weight(weights) - weights[action],
        0 <= whole(damage_units(weights, action)) <= 100,
{
    lemma_peak(weights, action);
    lemma_damage(peak_weight(weights) as int, weights[action] as int);
}

/// A question to a single bot.
#[derive(Debug)]
pub struct ArenaQuery {
    pub hand: String,
    pub board: Option<String>,
    pub pos: Option<String>,
    pub bot_elo: i32,
}

/// The strategy of the spot, and the bot's move.
#[derive(Debug)]
pub struct ArenaReply {
    pub strategy: Strategy,
    pub bot: BotMove,
}

/// The answer to a question to a bot, with a seed.
pub fn seeded_arena(query: &ArenaQuery, seed: u64) -> (reply: ArenaReply)
    requires
        readable(query.hand@, text_or_empty(query.board)),
    ensures
        reply.strategy@ == smart_strategy(
            query.hand@,
            text_or_empty(query.board),
            Seq::empty(),
        ),
        reply.strategy.wf(),
        is_move(reply.bot, reply.strategy@, query.bot_elo as int, seed),
{
    let strategy = opening_strategy(&query.hand, &query.board, &query.pos);
    let bot = seeded_move(&strategy, query.bot_elo, seed);
    ArenaReply { strategy, bot }
}

/// The bot's part of an answer.
pub open spec fn bot_part(outcome: Result<ArenaReply, SeedError>) -> Result<BotMove, SeedError> {
    match outcome {
        Ok(reply) => Ok(reply.bot),
        Err(error) => Err(error),
    }
}

/// The answer to a question to a bot, at a reading of the clock.
pub fn timed_arena(query: &ArenaQuery, nanos: Option<u128>) -> (outcome: Result<
    ArenaReply,
    SeedError,
>)
    requires
        readable(query.hand@, text_or_empty(query.board)),
    ensures
        outcome matches Ok(reply) ==> reply.strategy@ == smart_strategy(
            query.hand@,
            text_or_empty(query.board),
            Seq::empty(),
        ) && reply.strategy.wf(),
        is_outcome(
            bot_part(outcome),
            smart_strategy(query.hand@, text_or_empty(query.board), Seq::empty()),
            query.bot_elo as int,
            0,
            nanos,
        ),
{
    match draw_seed(nanos, 0) {
        Err(error) => Err(error),
        Ok(seed) => Ok(seeded_arena(query, seed)),
    }
}

/// Answers a question to a bot. The clock decides on the seed, and whether
/// there is one; it is only missing before 1970.
pub fn arena(query: &ArenaQuery) -> (outcome: Result<ArenaReply, SeedError>)
    requires
        readable(query.hand@, text_or_empty(query.board)),
    ensures
        outcome matches Ok(reply) ==> reply.strategy@ == smart_strategy(
            query.hand@,
            text_or_empty(query.board),
            Seq::empty(),
        ) && reply.strategy.wf(),
        is_some_outcome(
            bot_part(outcome),
            smart_strategy(query.hand@, text_or_empty(query.board), Seq::empty()),
            query.bot_elo as int,
            0,
        ),
        outcome matches Err(error) ==> error == SeedError::BeforeEpoch,
{
    let nanos = clock_nanos();
    timed_arena(query, nanos)
}

/// The strategy of a hand on a board, if any, where nobody has acted.
fn opening_strategy(hand: &String, board: &Option<String>, pos: &Option<String>) -> (strategy:
    Strategy)
    requires
        readable(hand@, text_or_empty(*board)),
    ensures
        strategy@ == smart_strategy(hand@, text_or_empty(*board), Seq::empty()),
        strategy.wf(),
{
    let board = or_empty(board);
    let pos = or_empty(pos);
    let history = String::new();
    get_smart_gto_strategy(hand, &board, &history, &pos)
}

/// How many bots sit at the arena's table.
pub const ARENA_BOTS: usize = 7;

/// The ratings of the arena's bots, in the order in which they act.
pub open spec fn arena_elo(bot: int) -> int {
    seq![800int, 1000, 1200, 1500, 1800, 2100, 2500][bot]
}

/// A table of the arena: the strategy of the spot, and how many of the bots
/// have acted, all of them where it is over.
#[derive(Clone, Copy, Debug)]
pub struct ArenaTable {
    pub strategy: Strategy,
    pub acted: usize,
}

/// A bot's turn: how long to pause before it, the number under which the bot
/// is announced, its rating and the offset of its seed.
#[derive(Clone, Copy, Debug, PartialEq, Eq, Structural)]
pub struct BotTurn {
    pub pause_millis: u64,
    pub bot_id: usize,
    pub elo: i32,
    pub offset: u64,
}

/// The turn of a bot.
pub open spec fn turn_of(bot: int) -> BotTurn {
    BotTurn {
        pause_millis: 800,
        bot_id: (bot + 1) as usize,
        elo: arena_elo(bot) as i32,
        offset: (bot * 1000) as u64,
    }
}

/// The bots act from the weakest to the strongest, each under a number and
/// with an offset of its own.
pub proof fn lemma_arena_order(earlier: int, later: int)
    requires
        0 <= earlier < later < ARENA_BOTS,
    ensures
        turn_of(earlier).elo < turn_of(later).elo,
        turn_of(earlier).bot_id < turn_of(later).bot_id,
        turn_of(earlier).offset < turn_of(later).offset,
{
}

impl ArenaTable {
    /// Whether the strategy is one, and no more bots have acted than there are.
    pub open spec fn wf(self) -> bool {
        self.strategy.wf() && self.acted <= ARENA_BOTS
    }

    /// Opens a table at a spot.
    pub fn open(hand: &str, board: &str, pos: &str) -> (table: ArenaTable)
        requires
            readable(hand@, board@),
        ensures
            table.strategy@ == smart_strategy(hand@, board@, Seq::empty()),
            table.acted == 0,
            table.wf(),
    {
        let history = String::new();
        ArenaTable { strategy: get_smart_gto_strategy(hand, board, &history, pos), acted: 0 }
    }

    /// The next turn, if there is one. The table is over once a bot's move
    /// could not be delivered; before the first turn nothing had to be.
    pub fn next_turn(&mut self, delivered: bool) -> (turn: Option<BotTurn>)
        requires
            old(self).wf(),
        ensures
            final(self).wf(),
            final(self).strategy == old(self).strategy,
            if delivered && old(self).acted < ARENA_BOTS {
                turn == Some(turn_of(old(self).acted as int)) && final(self).acted == old(self).acted
                    + 1
            } else {
                turn is None && final(self).acted == ARENA_BOTS
            },
    {
        if !delivered || self.acted >= ARENA_BOTS {
            self.acted = ARENA_BOTS;
            return None;
        }
        let bot = self.acted;
        let elos: [i32; 7] = [800, 1000, 1200, 1500, 1800, 2100, 2500];
        let turn = BotTurn {
            pause_millis: 800,
            bot_id: bot + 1,
            elo: elos[bot],
            offset: bot as u64 * 1000,
        };
        self.acted = bot + 1;
        Some(turn)
    }

    /// The move that the bot makes in its turn. The clock decides on the seed,
    /// and whether there is one.
    pub fn play(&self, turn: &BotTurn) -> (outcome: Result<BotMove, SeedError>)
        requires
            self.wf(),
        ensures
            is_some_outcome(outcome, self.strategy@, turn.elo as int, turn.offset),
    {
        simulate_bot_action(&self.strategy, turn.elo, turn.offset)
    }
}

/// The optimal action is one of the four; no weight is larger than its own, and
/// every action before it has a smaller one. The peak is its weight.
pub proof fn lemma_optimal_action(weights: Seq<u32>)
    ensures
        0 <= optimal_action(weights) < 4,
        forall|j: int| 0 <= j < 4 ==> #[trigger] weights[j] <= weights[optimal_action(weights)],
        forall|j: int|
            0 <= j < optimal_action(weights) ==> #[trigger] weights[j] < weights[optimal_action(
                weights,
            )],
        forall|j: int| 0 <= j < 4 ==> #[trigger] weights[j] <= peak_weight(weights),
        peak_weight(weights) == weights[optimal_action(weights)],
{
}

/// The damage of an action is a hundred times what its probability falls short
/// of the largest one, that of `best`: that many ones, within a ten-thousandth,
/// computed in binary32. There is none just where no weight is larger.
pub proof fn lemma_damage_of(weights: Seq<u32>, action: int, best: int)
    requires
        is_strategy(weights),
        0 <= action < 4,
        0 <= best < 4,
        forall|j: int| 0 <= j < 4 ==> #[trigger] weights[j] <= weights[best],
    ensures
        ({
            let gap = weights[best] - weights[action];
            let damage = damage_units(weights, action);
            &&& -0x200_0000 <= damage - gap * 0x100_0000_0000 <= 0x200_0000
            &&& damage == 0 <==> gap == 0
            &&& damage == times_units(
                minus_units(
                    ratio_units(weights[best] as int, 100),
                    ratio_units(weights[action] as int, 100),
                ),
                100 * ONE,
            )
        }),
{
    lemma_optimal_action(weights);
    assert(weights[optimal_action(weights)] <= weights[best]);
    assert(weights[best] <= weights[optimal_action(weights)]);
    lemma_damage(peak_weight(weights) as int, weights[action] as int);
}

/// A bot misses the optimal action with a chance of one less its rating in
/// parts of 2100, from 0.60 down to 0.05: within a millionth, and where it lies
/// between the two, as binary32 subtracts.
pub proof fn lemma_error_chance(elo: int)
    ensures
        ({
            let exact = vstd::math::max(105, vstd::math::min(1260, 2100 - elo));
            let chance = error_chance_units(elo);
            &&& -0x2000_0000 <= 2100 * chance - exact * 0x100_0000_0000 <= 0x2000_0000
            &&& 2100 - elo > 1260 ==> chance == ratio_units(60, 100)
            &&& 2100 - elo < 105 ==> chance == ratio_units(5, 100)
            &&& 105 < 2100 - elo < 1260 ==> chance == minus_units(
                ONE as int,
                ratio_units(elo, 2100),
            )
            &&& 105 <= 2100 - elo <= 1260 ==> chance == clamp_units(
                minus_units(ONE as int, ratio_units(elo, 2100)),
                ratio_units(5, 100),
                ratio_units(60, 100),
            )
        }),
{
    vstd::arithmetic::power2::lemma2_to64();
    lemma_rounded_close(5 * ONE, 100, 17);
    lemma_rounded_close(60 * ONE, 100, 17);
    if 0 < elo < 2100 {
        lemma_small_wholes();
        lemma_rounded_bounds(elo * ONE, 2100, ONE as int);
        lemma_rounded_close(elo * ONE, 2100, 17);
        lemma_rounded_representable(elo * ONE, 2100);
        lemma_rounded_close(ONE - ratio_units(elo, 2100), 1, 17);
    }
}

/// One step of the generator multiplies by 6364136223846793005 and adds one,
/// modulo 2^64. The roll is what the bits from the 33rd on leave of division by
/// a hundred.
pub proof fn lemma_generator(seed: u64)
    ensures
        0 <= mixed(seed) < 0x1_0000_0000_0000_0000,
        (6364136223846793005 * seed + 1 - mixed(seed)) % 0x1_0000_0000_0000_0000 == 0,
        0 <= roll_of(seed) < 100,
        (mixed(seed) / 0x2_0000_0000 - roll_of(seed)) % 100 == 0,
{
}

/// A bot errs where the roll is below its chance, in hundredths: surely where
/// it is below by more than rounding, and surely not where it is above.
pub proof fn lemma_errs(elo: int, seed: u64)
    ensures
        ({
            let exact = vstd::math::max(105, vstd::math::min(1260, 2100 - elo));
            &&& 21 * roll_of(seed) < exact ==> errs(elo, seed)
            &&& 21 * roll_of(seed) > exact ==> !errs(elo, seed)
            &&& errs(elo, seed) <==> ratio_units(roll_of(seed), 100) < error_chance_units(elo)
        }),
{
    vstd::arithmetic::power2::lemma2_to64();
    lemma_error_chance(elo);
    lemma_rounded_close(roll_of(seed) * ONE, 100, 17);
}

/// A bot that does not err plays an action that no weight exceeds, the first of
/// them. One that errs plays another one: what the seed draws of the four, or
/// the next one where it draws the optimal action.
pub proof fn lemma_choice(weights: Seq<u32>, elo: int, seed: u64)
    ensures
        ({
            let choice = bot_choice(weights, elo, seed);
            let drawn = mixed(seed) % 4;
            let best = optimal_action(weights);
            &&& 0 <= choice < 4
            &&& !errs(elo, seed) ==> (forall|j: int|
                0 <= j < 4 ==> #[trigger] weights[j] <= weights[choice]) && (forall|j: int|
                0 <= j < choice ==> #[trigger] weights[j] < weights[choice])
            &&& errs(elo, seed) ==> choice != best
            &&& errs(elo, seed) && drawn != best ==> choice == drawn
            &&& errs(elo, seed) && drawn == best ==> choice == if best == 3 {
                0
            } else {
                best + 1
            }
        }),
{
    lemma_optimal_action(weights);
}

/// The four actions, from the first on, are to fold, to call, and to raise a
/// third or three quarters of the pot.
pub proof fn lemma_action_names()
    ensures
        action_name(0) == "FOLD"@,
        action_name(1) == "CALL"@,
        action_name(2) == "RAISE 33%"@,
        action_name(3) == "RAISE 75%"@,
{
}

/// A move names the action that the bot has chosen, and costs what that action
/// falls short of the best one.
pub proof fn lemma_move(made: BotMove, weights: Seq<u32>, elo: int, seed: u64, best: int)
    requires
        is_strategy(weights),
        is_move(made, weights, elo, seed),
        0 <= best < 4,
        forall|j: int| 0 <= j < 4 ==> #[trigger] weights[j] <= weights[best],
    ensures
        ({
            let choice = bot_choice(weights, elo, seed);
            let gap = weights[best] - weights[choice];
            &&& choice == 0 ==> made.action@ == "FOLD"@
            &&& choice == 1 ==> made.action@ == "CALL"@
            &&& choice == 2 ==> made.action@ == "RAISE 33%"@
            &&& choice == 3 ==> made.action@ == "RAISE 75%"@
            &&& made.damage@ == damage_units(weights, choice)
            &&& -0x200_0000 <= made.damage@ - gap * 0x100_0000_0000 <= 0x200_0000
        }),
{
    lemma_choice(weights, elo, seed);
    lemma_damage_of(weights, bot_choice(weights, elo, seed), best);
}

/// A seed is what the clock leaves of division by 2^64, and the offset.
pub proof fn lemma_seed(nanos: u128, offset: u64)
    ensures
        seed_of(nanos, offset) == nanos % 0x1_0000_0000_0000_0000 + offset,
{
    let low = nanos as u64;
    assert(low == nanos % 0x1_0000_0000_0000_0000) by (bit_vector)
        requires
            low == nanos as u64,
    ;
}

/// A bot moves at every reading of the clock from 1970 on whose seed has 64
/// bits, as that seed says; at any other, it fails for the reason why there is
/// no seed.
pub proof fn lemma_outcome(
    outcome: Result<BotMove, SeedError>,
    weights: Seq<u32>,
    elo: int,
    offset: u64,
    nanos: Option<u128>,
)
    requires
        is_outcome(outcome, weights, elo, offset, nanos),
    ensures
        nanos is None ==> outcome == Err::<BotMove, SeedError>(SeedError::BeforeEpoch),
        nanos matches Some(reading) ==> {
            let seed = reading % 0x1_0000_0000_0000_0000 + offset;
            &&& seed > u64::MAX ==> outcome == Err::<BotMove, SeedError>(SeedError::Overflow)
            &&& seed <= u64::MAX ==> outcome is Ok && is_move(
                outcome->Ok_0,
                weights,
                elo,
                seed as u64,
            )
        },
{
    if let Some(reading) = nanos {
        lemma_seed(reading, offset);
    }
}

/// The bot's part of an answer is its move, or why there is none.
pub proof fn lemma_bot_part(outcome: Result<ArenaReply, SeedError>)
    ensures
        outcome is Ok <==> bot_part(outcome) is Ok,
        outcome matches Ok(reply) ==> bot_part(outcome)->Ok_0 == reply.bot,
        outcome matches Err(error) ==> bot_part(outcome)->Err_0 == error,
{
}

/// The turns of the seven bots, numbered from one: each comes after a pause of
/// 800 milliseconds and shifts its seed by a thousand more than the last, and
/// the ratings rise from 800 to 2500.
pub proof fn lemma_turns(bot: int)
    requires
        0 <= bot < 7,
    ensures
        turn_of(bot).pause_millis == 800,
        turn_of(bot).bot_id == bot + 1,
        turn_of(bot).offset == 1000 * bot,
        turn_of(bot).elo == arena_elo(bot),
        arena_elo(0) == 800 && arena_elo(1) == 1000 && arena_elo(2) == 1200,
        arena_elo(3) == 1500 && arena_elo(4) == 1800,
        arena_elo(5) == 2100 && arena_elo(6) == 2500,
        ARENA_BOTS == 7,
{
}

/// What a bot does now is what it does at some reading of the clock: a move is
/// the one of a seed from the offset on, and without an offset a seed never
/// has too many bits.
pub proof fn lemma_some_outcome(
    outcome: Result<BotMove, SeedError>,
    weights: Seq<u32>,
    elo: int,
    offset: u64,
)
    requires
        is_some_outcome(outcome, weights, elo, offset),
    ensures
        exists|nanos: Option<u128>| #[trigger] is_outcome(outcome, weights, elo, offset, nanos),
        outcome matches Ok(made) ==> exists|seed: u64|
            offset <= seed && #[trigger] is_move(made, weights, elo, seed),
        offset == 0 ==> outcome is Ok || outcome->Err_0 == SeedError::BeforeEpoch,
{
    let nanos = choose|nanos: Option<u128>| #[trigger]
        is_outcome(outcome, weights, elo, offset, nanos);
    lemma_outcome(outcome, weights, elo, offset, nanos);
    if let Some(reading) = nanos {
        let seed = reading % 0x1_0000_0000_0000_0000 + offset;
        if seed <= u64::MAX {
            assert(is_move(outcome->Ok_0, weights, elo, seed as u64));
        }
    }
}

} // verus!
