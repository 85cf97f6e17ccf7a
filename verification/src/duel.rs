//! A live duel: two players act on the same spots, and each loses health for
//! every action that is not the best one.

use vstd::prelude::*;
use crate::bot::{damage, lemma_damage_whole, peak_weight};
use crate::strategy::{is_strategy, Strategy};

verus! {

/// The health that a player starts with.
pub const FULL_HP: i32 = 1000;

/// How many players a room holds.
pub const SEATS: usize = 2;

/// A player in a room. `conn` tells the player's connection from all others.
#[derive(Debug)]
pub struct DuelPlayer {
    pub user_id: i32,
    pub username: String,
    pub hp: i32,
    pub action: Option<usize>,
    pub conn: u64,
}

/// A room: its players, and the strategy that the current round is played
/// against, once there is one.
#[derive(Debug)]
pub struct DuelRoom {
    pub players: Vec<DuelPlayer>,
    pub strategy: Option<Strategy>,
}

/// The contents of a player's seat.
pub ghost struct Seat {
    pub user_id: i32,
    pub username: Seq<char>,
    pub hp: int,
    pub action: Option<usize>,
    pub conn: u64,
}

/// The contents of a room.
#[verifier::ext_equal]
pub ghost struct Room {
    pub seats: Seq<Seat>,
    pub weights: Option<Seq<u32>>,
}

/// What a round has done: each player's health and loss, and who has won, if
/// the duel is over and somebody has.
#[derive(Clone, Copy, Debug, PartialEq, Eq, Structural)]
pub struct RoundReport {
    pub p1_id: i32,
    pub p1_hp: i32,
    pub p1_loss: i32,
    pub p2_id: i32,
    pub p2_hp: i32,
    pub p2_loss: i32,
    pub game_over: bool,
    pub winner_id: Option<i32>,
    pub loser_id: Option<i32>,
}

impl View for DuelPlayer {
    type V = Seat;

    open spec fn view(&self) -> Seat {
        Seat {
            user_id: self.user_id,
            username: self.username@,
            hp: self.hp as int,
            action: self.action,
            conn: self.conn,
        }
    }
}

/// The seats of a list of players.
pub open spec fn seats_of(players: Seq<DuelPlayer>) -> Seq<Seat> {
    players.map_values(|player: DuelPlayer| player@)
}

impl View for DuelRoom {
    type V = Room;

    open spec fn view(&self) -> Room {
        Room {
            seats: seats_of(self.players@),
            weights: match self.strategy {
                Some(strategy) => Some(strategy@),
                None => None,
            },
        }
    }
}

/// A seat with an action chosen.
pub open spec fn choose_action(seat: Seat, action: Option<usize>) -> Seat {
    Seat { action, ..seat }
}

/// What an action loses against a strategy: the hundredths by which its
/// weight falls short of the largest.
pub open spec fn loss_of(weights: Seq<u32>, action: int) -> int {
    peak_weight(weights) - weights[action]
}

/// A seat after its action has been judged: health is lost, down to zero, and
/// the action is gone.
pub open spec fn judged(seat: Seat, weights: Seq<u32>) -> Seat {
    let left = seat.hp - loss_of(weights, seat.action->0 as int);
    Seat {
        hp: if left < 0 {
            0
        } else {
            left
        },
        action: None,
        ..seat
    }
}

impl Room {
    /// A room as it is kept: one or two players, all of them alive, and
    /// weights that are a strategy's.
    pub open spec fn wf(self) -> bool {
        &&& 1 <= self.seats.len() <= SEATS
        &&& forall|i: int|
            0 <= i < self.seats.len() ==> 0 < (#[trigger] self.seats[i]).hp <= FULL_HP
        &&& self.weights matches Some(weights) ==> is_strategy(weights)
    }

    /// The connections of the players.
    pub open spec fn conns(self) -> Seq<u64> {
        self.seats.map_values(|seat: Seat| seat.conn)
    }

    /// The room with one more player.
    pub open spec fn admitted(self, seat: Seat) -> Room {
        Room { seats: self.seats.push(seat), ..self }
    }

    /// The room at the start of a round.
    pub open spec fn restarted(self, weights: Seq<u32>) -> Room {
        Room {
            seats: self.seats.map_values(|seat: Seat| choose_action(seat, None)),
            weights: Some(weights),
        }
    }

    /// The room with an action of a user recorded.
    pub open spec fn recorded(self, user_id: i32, action: usize) -> Room {
        Room {
            seats: self.seats.map_values(
                |seat: Seat|
                    if seat.user_id == user_id {
                        choose_action(seat, Some(action))
                    } else {
                        seat
                    },
            ),
            ..self
        }
    }

    /// Whether the round can be judged: there is one, and both players have
    /// acted.
    pub open spec fn complete(self) -> bool {
        &&& self.seats.len() == 2
        &&& self.seats[0].action is Some
        &&& self.seats[1].action is Some
        &&& self.weights is Some
    }

    /// Whether every chosen action is one of the four.
    pub open spec fn playable(self) -> bool {
        forall|i: int|
            0 <= i < self.seats.len() ==> ((#[trigger] self.seats[i]).action matches Some(action)
                ==> action < 4)
    }

    /// The room after a complete round has been judged.
    pub open spec fn resolved(self) -> Room {
        Room {
            seats: self.seats.map_values(|seat: Seat| judged(seat, self.weights->0)),
            ..self
        }
    }

    /// Whether a player has no health left.
    pub open spec fn over(self) -> bool {
        self.seats[0].hp == 0 || self.seats[1].hp == 0
    }

    /// The seats of the winner and the loser, if the duel is over and the
    /// players are not equally dead.
    pub open spec fn verdict(self) -> Option<(Seat, Seat)> {
        if !self.over() || self.seats[0].hp == self.seats[1].hp {
            None
        } else if self.seats[0].hp > self.seats[1].hp {
            Some((self.seats[0], self.seats[1]))
        } else {
            Some((self.seats[1], self.seats[0]))
        }
    }

    /// The room without a user.
    pub open spec fn without(self, user_id: i32) -> Room {
        Room { seats: self.seats.filter(|seat: Seat| seat.user_id != user_id), ..self }
    }
}

/// Whether a report tells what judging the complete round of a room has done.
pub open spec fn reports(report: RoundReport, room: Room) -> bool {
    let after = room.resolved();
    &&& report.p1_id == room.seats[0].user_id
    &&& report.p1_hp == after.seats[0].hp
    &&& report.p1_loss == loss_of(room.weights->0, room.seats[0].action->0 as int)
    &&& report.p2_id == room.seats[1].user_id
    &&& report.p2_hp == after.seats[1].hp
    &&& report.p2_loss == loss_of(room.weights->0, room.seats[1].action->0 as int)
    &&& report.game_over == after.over()
    &&& match after.verdict() {
        Some((winner, loser)) => report.winner_id == Some(winner.user_id) && report.loser_id == Some(
            loser.user_id,
        ),
        None => report.winner_id is None && report.loser_id is None,
    }
}

impl DuelPlayer {
    /// A player of the same contents.
    pub fn copy(&self) -> (copy: DuelPlayer)
        ensures
            copy@ == self@,
    {
        DuelPlayer {
            user_id: self.user_id,
            username: self.username.clone(),
            hp: self.hp,
            action: self.action,
            conn: self.conn,
        }
    }
}

impl DuelRoom {
    /// An empty room, before its first player.
    pub fn new() -> (room: DuelRoom)
        ensures
            room@ == (Room { seats: Seq::empty(), weights: None }),
    {
        let room = DuelRoom { players: Vec::new(), strategy: None };
        assert(room@.seats == Seq::<Seat>::empty());
        room
    }

    /// A room of the same contents.
    pub fn copy(&self) -> (copy: DuelRoom)
        ensures
            copy@ == self@,
    {
        let mut players: Vec<DuelPlayer> = Vec::new();
        let mut i: usize = 0;
        while i < self.players.len()
            invariant
                i <= self.players@.len(),
                seats_of(players@) == seats_of(self.players@).take(i as int),
            decreases self.players@.len() - i,
        {
            let ghost before = players@;
            players.push(self.players[i].copy());
            assert(seats_of(players@) == seats_of(before).push(self.players@[i as int]@));
            assert(seats_of(players@) == seats_of(self.players@).take(i + 1));
            i = i + 1;
        }
        let copy = DuelRoom { players, strategy: self.strategy };
        assert(copy@.seats == self@.seats);
        copy
    }

    /// The connections of the players.
    pub fn conns(&self) -> (conns: Vec<u64>)
        ensures
            conns@ == self@.conns(),
    {
        let mut conns: Vec<u64> = Vec::new();
        let mut i: usize = 0;
        while i < self.players.len()
            invariant
                i <= self.players@.len(),
                conns@ == self@.conns().take(i as int),
            decreases self.players@.len() - i,
        {
            conns.push(self.players[i].conn);
            assert(conns@ == self@.conns().take(i + 1));
            i = i + 1;
        }
        assert(self@.conns().take(i as int) == self@.conns());
        conns
    }

    /// Takes in one more player.
    pub fn add_player(&mut self, player: DuelPlayer)
        ensures
            final(self)@ == old(self)@.admitted(player@),
    {
        self.players.push(player);
        assert(self@.seats == old(self)@.admitted(player@).seats);
    }

    /// Starts a round.
    pub fn restart(&mut self, strategy: Strategy)
        ensures
            final(self)@ == old(self)@.restarted(strategy@),
    {
        let mut i: usize = 0;
        while i < self.players.len()
            invariant
                i <= self.players@.len(),
                self.players@.len() == old(self).players@.len(),
                forall|j: int|
                    0 <= j < i ==> (#[trigger] self.players@[j])@ == choose_action(
                        old(self).players@[j]@,
                        None,
                    ),
                forall|j: int|
                    i <= j < self.players@.len() ==> #[trigger] self.players@[j]
                        == old(self).players@[j],
            decreases self.players@.len() - i,
        {
            self.players[i].action = None;
            i = i + 1;
        }
        self.strategy = Some(strategy);
        assert(self@.seats == old(self)@.restarted(strategy@).seats);
    }

    /// Records an action of a user.
    pub fn record(&mut self, user_id: i32, action: usize)
        ensures
            final(self)@ == old(self)@.recorded(user_id, action),
    {
        let mut i: usize = 0;
        while i < self.players.len()
            invariant
                i <= self.players@.len(),
                self.strategy == old(self).strategy,
                self.players@.len() == old(self).players@.len(),
                forall|j: int|
                    0 <= j < i ==> (#[trigger] self.players@[j])@ == old(self)@.recorded(
                        user_id,
                        action,
                    ).seats[j],
                forall|j: int|
                    i <= j < self.players@.len() ==> #[trigger] self.players@[j]
                        == old(self).players@[j],
            decreases self.players@.len() - i,
        {
            assert(self.players@[i as int] == old(self).players@[i as int]);
            if self.players[i].user_id == user_id {
                self.players[i].action = Some(action);
            }
            i = i + 1;
        }
        assert(self@.seats == old(self)@.recorded(user_id, action).seats);
    }

    /// Whether the round can be judged.
    pub fn is_complete(&self) -> (complete: bool)
        ensures
            complete == self@.complete(),
    {
        self.players.len() == 2 && self.players[0].action.is_some()
            && self.players[1].action.is_some() && self.strategy.is_some()
    }

    /// Takes a user's players out.
    pub fn remove_user(&mut self, user_id: i32)
        ensures
            final(self)@ == old(self)@.without(user_id),
    {
        let ghost stays = |seat: Seat| seat.user_id != user_id;
        let mut kept: Vec<DuelPlayer> = Vec::new();
        let mut i: usize = 0;
        while i < self.players.len()
            invariant
                i <= self.players@.len(),
                *self == *old(self),
                stays == (|seat: Seat| seat.user_id != user_id),
                seats_of(kept@) == self@.seats.take(i as int).filter(stays),
            decreases self.players@.len() - i,
        {
            proof {
                reveal(Seq::filter);
                assert(self@.seats.take(i + 1).drop_last() == self@.seats.take(i as int));
            }
            if self.players[i].user_id != user_id {
                let ghost before = kept@;
                kept.push(self.players[i].copy());
                assert(seats_of(kept@) == seats_of(before).push(self@.seats[i as int]));
            }
            i = i + 1;
        }
        assert(self@.seats.take(i as int) == self@.seats);
        self.players = kept;
    }

    /// Judges the complete round.
    pub fn resolve(&mut self) -> (report: RoundReport)
        requires
            old(self)@.complete(),
            old(self)@.playable(),
            old(self)@.wf(),
        ensures
            final(self)@ == old(self)@.resolved(),
            reports(report, old(self)@),
    {
        let ghost weights = self@.weights->0;
        let ghost room = self@;
        assert(self.players@[0]@ == room.seats[0]);
        assert(self.players@[1]@ == room.seats[1]);
        let strategy = self.strategy.unwrap();
        let action1 = self.players[0].action.unwrap();
        let action2 = self.players[1].action.unwrap();
        proof {
            lemma_damage_whole(weights, action1 as int);
            lemma_damage_whole(weights, action2 as int);
        }
        let loss1 = damage(&strategy, action1).round();
        let loss2 = damage(&strategy, action2).round();
        self.players[0].hp = drain(self.players[0].hp, loss1);
        self.players[1].hp = drain(self.players[1].hp, loss2);
        self.players[0].action = None;
        self.players[1].action = None;
        assert(self@.seats == room.resolved().seats);
        let hp1 = self.players[0].hp;
        let hp2 = self.players[1].hp;
        let id1 = self.players[0].user_id;
        let id2 = self.players[1].user_id;
        let game_over = hp1 == 0 || hp2 == 0;
        let (winner_id, loser_id) = if game_over && hp1 > hp2 {
            (Some(id1), Some(id2))
        } else if game_over && hp2 > hp1 {
            (Some(id2), Some(id1))
        } else {
            (None, None)
        };
        RoundReport {
            p1_id: id1,
            p1_hp: hp1,
            p1_loss: loss1,
            p2_id: id2,
            p2_hp: hp2,
            p2_loss: loss2,
            game_over,
            winner_id,
            loser_id,
        }
    }
}

/// Health after a loss.
fn drain(hp: i32, loss: i32) -> (left: i32)
    requires
        0 <= hp,
        0 <= loss,
    ensures
        left == if hp < loss {
            0int
        } else {
            hp - loss
        },
{
    if hp < loss {
        0
    } else {
        hp - loss
    }
}

/// What a filter keeps was there before.
proof fn lemma_filter_keeps(seats: Seq<Seat>, test: spec_fn(Seat) -> bool)
    ensures
        seats.filter(test).len() <= seats.len(),
        forall|i: int|
            0 <= i < seats.filter(test).len() ==> seats.contains(#[trigger] seats.filter(test)[i]),
    decreases seats.len(),
{
    reveal(Seq::filter);
    if seats.len() > 0 {
        let fewer = seats.drop_last();
        lemma_filter_keeps(fewer, test);
        assert forall|i: int| 0 <= i < seats.filter(test).len() implies seats.contains(
            #[trigger] seats.filter(test)[i],
        ) by {
            let kept = seats.filter(test)[i];
            if i < fewer.filter(test).len() {
                assert(kept == fewer.filter(test)[i]);
                assert(fewer.contains(kept));
                let j = choose|j: int| 0 <= j < fewer.len() && fewer[j] == kept;
                assert(seats[j] == kept);
            } else {
                assert(kept == seats[seats.len() - 1]);
            }
        }
    }
}

/// A room stays in order while somebody stays in it.
pub proof fn lemma_without_wf(room: Room, user_id: i32)
    requires
        room.wf(),
        room.without(user_id).seats.len() > 0,
    ensures
        room.without(user_id).wf(),
{
    let after = room.without(user_id);
    lemma_filter_keeps(room.seats, |seat: Seat| seat.user_id != user_id);
    assert forall|i: int| 0 <= i < after.seats.len() implies 0 < (
    #[trigger] after.seats[i]).hp <= FULL_HP by {
        assert(room.seats.contains(after.seats[i]));
    }
}

/// Nobody of that user id is left.
pub proof fn lemma_without_gone(room: Room, user_id: i32)
    ensures
        forall|i: int|
            0 <= i < room.without(user_id).seats.len() ==> (
            #[trigger] room.without(user_id).seats[i]).user_id != user_id,
{
    broadcast use vstd::seq_lib::group_filter_ensures;

    let test = |seat: Seat| seat.user_id != user_id;
    assert forall|i: int| 0 <= i < room.without(user_id).seats.len() implies (
    #[trigger] room.without(user_id).seats[i]).user_id != user_id by {
        assert(test(room.seats.filter(test)[i]));
    }
}

/// Judging a round costs each player between nothing and a hundred, nothing
/// for an optimal action, and leaves nobody's action standing.
pub proof fn lemma_round_costs(room: Room, i: int)
    requires
        room.wf(),
        room.complete(),
        room.playable(),
        i == 0 || i == 1,
    ensures
        ({
            let before = room.seats[i];
            let after = room.resolved().seats[i];
            let action = before.action->0 as int;
            &&& after.user_id == before.user_id
            &&& after.action is None
            &&& 0 <= after.hp <= before.hp <= after.hp + 100
            &&& action == crate::bot::optimal_action(room.weights->0) ==> after.hp == before.hp
        }),
{
    let action = room.seats[i].action->0 as int;
    lemma_damage_whole(room.weights->0, action);
}

/// Whoever wins is alive, and whoever loses is not; where a duel is over
/// without a winner, nobody is alive.
pub proof fn lemma_verdict(room: Room)
    requires
        room.wf(),
        room.complete(),
        room.playable(),
    ensures
        match room.resolved().verdict() {
            Some((winner, loser)) => room.resolved().over() && winner.hp > 0 && loser.hp == 0,
            None => room.resolved().over() ==> room.resolved().seats[0].hp == 0
                && room.resolved().seats[1].hp == 0,
        },
{
    lemma_round_costs(room, 0);
    lemma_round_costs(room, 1);
}

/// Only the last of a user's actions counts, and starting a round forgets it.
pub proof fn lemma_last_action_counts(room: Room, user_id: i32, first: usize, second: usize)
    ensures
        room.recorded(user_id, first).recorded(user_id, second) == room.recorded(user_id, second),
        forall|weights: Seq<u32>|
            #[trigger] room.recorded(user_id, first).restarted(weights) == room.restarted(weights),
{
    assert(room.recorded(user_id, first).recorded(user_id, second).seats =~= room.recorded(
        user_id,
        second,
    ).seats);
    assert forall|weights: Seq<u32>|
        #[trigger] room.recorded(user_id, first).restarted(weights) == room.restarted(weights) by {
        assert(room.recorded(user_id, first).restarted(weights).seats =~= room.restarted(
            weights,
        ).seats);
    }
}

/// A room shows what it holds: its players in their order, each with the same
/// user, name, health, action and connection, and the weights of its strategy.
pub proof fn lemma_room_view(room: DuelRoom)
    ensures
        room@.seats.len() == room.players@.len(),
        forall|i: int|
            0 <= i < room.players@.len() ==> {
                let seat = #[trigger] room@.seats[i];
                let player = room.players@[i];
                &&& seat.user_id == player.user_id
                &&& seat.username == player.username@
                &&& seat.hp == player.hp
                &&& seat.action == player.action
                &&& seat.conn == player.conn
            },
        room@.weights is Some <==> room.strategy is Some,
        room.strategy matches Some(strategy) ==> room@.weights == Some(strategy.weights@),
{
}

/// A room is in order just where it has one or two players, each with one to a
/// thousand points of health, and weights, if any, that are four of at most a
/// hundred.
pub proof fn lemma_room_order(room: Room)
    ensures
        room.wf() <==> {
            &&& room.seats.len() == 1 || room.seats.len() == 2
            &&& forall|i: int|
                0 <= i < room.seats.len() ==> 1 <= (#[trigger] room.seats[i]).hp <= 1000
            &&& room.weights matches Some(weights) ==> weights.len() == 4 && forall|i: int|
                0 <= i < 4 ==> #[trigger] weights[i] <= 100
        },
{
}

/// Everybody in a room is told by the connection of the own seat, in the order
/// of the seats.
pub proof fn lemma_conns(room: Room)
    ensures
        room.conns().len() == room.seats.len(),
        forall|i: int|
            0 <= i < room.seats.len() ==> #[trigger] room.conns()[i] == room.seats[i].conn,
{
}

/// One more player takes the last seat; nothing else in the room changes.
pub proof fn lemma_admission(room: Room, seat: Seat)
    ensures
        room.admitted(seat).seats.len() == room.seats.len() + 1,
        forall|i: int|
            0 <= i < room.seats.len() ==> #[trigger] room.admitted(seat).seats[i] == room.seats[i],
        room.admitted(seat).seats[room.seats.len() as int] == seat,
        room.admitted(seat).weights == room.weights,
{
}

/// Starting a round keeps every player's seat, user, name, connection and
/// health: it only forgets the actions and sets the weights to play against.
pub proof fn lemma_restart(room: Room, weights: Seq<u32>)
    ensures
        room.restarted(weights).seats.len() == room.seats.len(),
        forall|i: int|
            0 <= i < room.seats.len() ==> {
                let before = room.seats[i];
                let after = #[trigger] room.restarted(weights).seats[i];
                &&& after.hp == before.hp
                &&& after.user_id == before.user_id
                &&& after.username == before.username
                &&& after.conn == before.conn
                &&& after.action is None
            },
        room.restarted(weights).weights == Some(weights),
{
}

/// Recording an action sets it on the seats of that user alone, and changes
/// neither anybody's health nor anything else in the room.
pub proof fn lemma_recording(room: Room, user_id: i32, action: usize)
    ensures
        room.recorded(user_id, action).seats.len() == room.seats.len(),
        forall|i: int|
            0 <= i < room.seats.len() ==> {
                let before = room.seats[i];
                let after = #[trigger] room.recorded(user_id, action).seats[i];
                &&& after.hp == before.hp
                &&& after.user_id == before.user_id
                &&& after.username == before.username
                &&& after.conn == before.conn
                &&& before.user_id == user_id ==> after.action == Some(action)
                &&& before.user_id != user_id ==> after.action == before.action
            },
        room.recorded(user_id, action).weights == room.weights,
{
}

/// A round can be judged just where two players have acted and there are
/// weights, and the actions can be played just where each is one of the four.
pub proof fn lemma_completion(room: Room)
    ensures
        room.complete() <==> room.seats.len() == 2 && room.weights is Some && (forall|i: int|
            0 <= i < 2 ==> (#[trigger] room.seats[i]).action is Some),
        room.playable() <==> (forall|i: int|
            0 <= i < room.seats.len() && (#[trigger] room.seats[i]).action is Some
                ==> room.seats[i].action->0 <= 3),
{
}

/// What an action loses brings its weight up to the largest one: together they
/// are at least every weight, and one of them. An action loses nothing just
/// where no weight is larger.
pub proof fn lemma_loss(weights: Seq<u32>, action: int)
    requires
        is_strategy(weights),
        0 <= action < 4,
    ensures
        forall|j: int|
            0 <= j < 4 ==> loss_of(weights, action) + weights[action] >= #[trigger] weights[j],
        exists|j: int|
            0 <= j < 4 && loss_of(weights, action) + weights[action] == #[trigger] weights[j],
        loss_of(weights, action) == 0 <==> (forall|j: int|
            0 <= j < 4 ==> #[trigger] weights[j] <= weights[action]),
{
    crate::bot::lemma_optimal_action(weights);
    let best = crate::bot::optimal_action(weights);
    assert(loss_of(weights, action) + weights[action] == weights[best]);
}

/// Two actions lose as much apart as their weights are, the lighter one more.
pub proof fn lemma_losses_compare(weights: Seq<u32>, one: int, other: int)
    requires
        is_strategy(weights),
        0 <= one < 4,
        0 <= other < 4,
    ensures
        loss_of(weights, one) - loss_of(weights, other) == weights[other] - weights[one],
{
}

/// Judging a round takes from each player's health the hundredths by which the
/// weight of the action falls short of the largest, `weights[best]`, and stops
/// at zero. The action is gone; all else in the room stays.
pub proof fn lemma_judging(room: Room, i: int, best: int)
    requires
        room.wf(),
        room.complete(),
        room.playable(),
        i == 0 || i == 1,
        0 <= best < 4,
        forall|j: int| 0 <= j < 4 ==> #[trigger] (room.weights->0)[j] <= (room.weights->0)[best],
    ensures
        ({
            let weights = room.weights->0;
            let before = room.seats[i];
            let after = room.resolved().seats[i];
            let loss = weights[best] - weights[before.action->0 as int];
            &&& room.resolved().seats.len() == 2
            &&& room.resolved().weights == room.weights
            &&& loss <= before.hp ==> after.hp == before.hp - loss
            &&& loss > before.hp ==> after.hp == 0
            &&& after.action is None
            &&& after.user_id == before.user_id
            &&& after.username == before.username
            &&& after.conn == before.conn
        }),
{
    let weights = room.weights->0;
    crate::bot::lemma_optimal_action(weights);
    let optimal = crate::bot::optimal_action(weights);
    assert(weights[optimal] <= weights[best] && weights[best] <= weights[optimal]);
}

/// A report says who the players are, what each has lost, up to the largest
/// weight, and what is left of the health. The duel is over just where one of
/// them has none left; then the healthier one wins and the other one loses,
/// and nobody does where both are dead.
pub proof fn lemma_report(report: RoundReport, room: Room)
    requires
        room.wf(),
        room.complete(),
        room.playable(),
        reports(report, room),
    ensures
        ({
            let weights = room.weights->0;
            let one = weights[room.seats[0].action->0 as int];
            let two = weights[room.seats[1].action->0 as int];
            &&& report.p1_id == room.seats[0].user_id
            &&& report.p2_id == room.seats[1].user_id
            &&& forall|j: int| 0 <= j < 4 ==> report.p1_loss + one >= #[trigger] weights[j]
            &&& exists|j: int| 0 <= j < 4 && report.p1_loss + one == #[trigger] weights[j]
            &&& report.p1_loss + one == report.p2_loss + two
        }),
        report.p1_hp == vstd::math::max(0, room.seats[0].hp - report.p1_loss),
        report.p2_hp == vstd::math::max(0, room.seats[1].hp - report.p2_loss),
        report.game_over <==> report.p1_hp == 0 || report.p2_hp == 0,
        report.game_over && report.p1_hp > report.p2_hp ==> report.winner_id == Some(report.p1_id)
            && report.loser_id == Some(report.p2_id),
        report.game_over && report.p2_hp > report.p1_hp ==> report.winner_id == Some(report.p2_id)
            && report.loser_id == Some(report.p1_id),
        !report.game_over || report.p1_hp == report.p2_hp ==> report.winner_id is None
            && report.loser_id is None,
{
    let weights = room.weights->0;
    lemma_loss(weights, room.seats[0].action->0 as int);
    lemma_loss(weights, room.seats[1].action->0 as int);
}

/// Who wins and who loses a duel is read off the health that is left.
pub proof fn lemma_verdict_of_health(room: Room)
    requires
        room.seats.len() == 2,
    ensures
        room.over() <==> room.seats[0].hp == 0 || room.seats[1].hp == 0,
        room.verdict() is Some <==> room.over() && room.seats[0].hp != room.seats[1].hp,
        room.verdict() matches Some((winner, loser)) ==> {
            &&& winner.hp > loser.hp
            &&& winner == room.seats[0] && loser == room.seats[1] || winner == room.seats[1]
                && loser == room.seats[0]
        },
{
}

/// Only the seats of the user who leaves are given up; the others stay as they
/// are, in their order, and so do the weights.
pub proof fn lemma_departure(room: Room, user_id: i32)
    requires
        room.seats.len() <= 2,
    ensures
        room.without(user_id).weights == room.weights,
        (forall|i: int| 0 <= i < room.seats.len() ==> (#[trigger] room.seats[i]).user_id != user_id)
            ==> room.without(user_id).seats == room.seats,
        (forall|i: int| 0 <= i < room.seats.len() ==> (#[trigger] room.seats[i]).user_id == user_id)
            ==> room.without(user_id).seats.len() == 0,
        room.seats.len() == 2 && room.seats[0].user_id == user_id && room.seats[1].user_id
            != user_id ==> room.without(user_id).seats == seq![room.seats[1]],
        room.seats.len() == 2 && room.seats[0].user_id != user_id && room.seats[1].user_id
            == user_id ==> room.without(user_id).seats == seq![room.seats[0]],
{
    reveal_with_fuel(Seq::filter, 4);
    let seats = room.seats;
    if seats.len() == 1 {
        assert(seats.drop_last() == Seq::<Seat>::empty());
        assert(seats == seq![seats[0]]);
    } else if seats.len() == 2 {
        assert(seats.drop_last() == seq![seats[0]]);
        assert(seats.drop_last().drop_last() == Seq::<Seat>::empty());
        assert(seats == seq![seats[0], seats[1]]);
    }
}

} // verus!
