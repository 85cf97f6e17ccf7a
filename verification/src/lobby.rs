//! The rooms of all live duels, and what every event does to them.

use vstd::hash_map::StringHashMap;
use vstd::prelude::*;
use crate::cards::{is_readable, readable};
use crate::duel::{
    lemma_departure, lemma_judging, lemma_report, lemma_round_costs, lemma_without_gone,
    lemma_without_wf, reports, DuelPlayer, DuelRoom, Room, Seat, FULL_HP, SEATS,
};
use crate::strategy::{get_smart_gto_strategy, is_strategy, smart_strategy};
use crate::wire::{Message, ServerMessage};

verus! {

/// The rooms, by name.
pub struct Lobby {
    rooms: StringHashMap<DuelRoom>,
}

/// One message to a list of connections, in the order in which they get it.
#[derive(Debug)]
pub struct Broadcast {
    pub message: ServerMessage,
    pub to: Vec<u64>,
}

/// What became of a player who asked for a seat, and whom to tell what.
#[derive(Debug)]
pub struct Joining {
    pub seated: bool,
    pub broadcast: Option<Broadcast>,
}

/// What an event in a room has led to: whom to tell what, and the winner and
/// the loser whose ratings change.
#[derive(Debug)]
pub struct Reaction {
    pub broadcast: Option<Broadcast>,
    pub settled: Option<(i32, i32)>,
}

/// What a player of a duel can send.
#[derive(Debug)]
pub enum DuelClientMessage {
    NewRound { hand: String, board: String, pos: String },
    Action { action_idx: usize },
}

/// The contents of the lobby.
pub type Rooms = Map<Seq<char>, Room>;

impl View for Lobby {
    type V = Rooms;

    closed spec fn view(&self) -> Rooms {
        self.rooms@.map_values(|room: DuelRoom| room@)
    }
}

/// Every room is kept in order.
pub open spec fn rooms_wf(rooms: Rooms) -> bool {
    forall|id: Seq<char>| #[trigger] rooms.contains_key(id) ==> rooms[id].wf()
}

/// The seat of a player who has just come in.
pub open spec fn new_seat(user_id: i32, username: Seq<char>, conn: u64) -> Seat {
    Seat { user_id, username, hp: FULL_HP as int, action: None, conn }
}

/// The room of a name, an empty one where there is none yet.
pub open spec fn room_at(rooms: Rooms, id: Seq<char>) -> Room {
    if rooms.contains_key(id) {
        rooms[id]
    } else {
        Room { seats: Seq::empty(), weights: None }
    }
}

/// Whether a room has no seat left.
pub open spec fn is_full(rooms: Rooms, id: Seq<char>) -> bool {
    room_at(rooms, id).seats.len() >= SEATS
}

/// The rooms after a player has asked for a seat.
pub open spec fn joined(rooms: Rooms, id: Seq<char>, seat: Seat) -> Rooms {
    if is_full(rooms, id) {
        rooms
    } else {
        rooms.insert(id, room_at(rooms, id).admitted(seat))
    }
}

/// The rooms after a round has begun.
pub open spec fn restarted(rooms: Rooms, id: Seq<char>, weights: Seq<u32>) -> Rooms {
    if rooms.contains_key(id) {
        rooms.insert(id, rooms[id].restarted(weights))
    } else {
        rooms
    }
}

/// The rooms after a user has acted: the action is recorded, a complete round
/// is judged, and a room whose duel is over is gone.
pub open spec fn acted(rooms: Rooms, id: Seq<char>, user_id: i32, action: usize) -> Rooms {
    if rooms.contains_key(id) {
        let room = rooms[id].recorded(user_id, action);
        if !room.complete() {
            rooms.insert(id, room)
        } else if room.resolved().over() {
            rooms.remove(id)
        } else {
            rooms.insert(id, room.resolved())
        }
    } else {
        rooms
    }
}

/// Whether an action of a user completes a round.
pub open spec fn completes(rooms: Rooms, id: Seq<char>, user_id: i32, action: usize) -> bool {
    rooms.contains_key(id) && rooms[id].recorded(user_id, action).complete()
}

/// Whether an action can be taken: one that completes a round finds two
/// actions that are among the four.
pub open spec fn acceptable(rooms: Rooms, id: Seq<char>, user_id: i32, action: usize) -> bool {
    completes(rooms, id, user_id, action) ==> rooms[id].recorded(user_id, action).playable()
}

/// The rooms after a user has left; an empty room is gone.
pub open spec fn left(rooms: Rooms, id: Seq<char>, user_id: i32) -> Rooms {
    if rooms.contains_key(id) {
        let room = rooms[id].without(user_id);
        if room.seats.len() == 0 {
            rooms.remove(id)
        } else {
            rooms.insert(id, room)
        }
    } else {
        rooms
    }
}

/// Whether a message of a player can be taken: a spot that is to be played in
/// a room can be read, and an action is acceptable.
pub open spec fn receivable(
    rooms: Rooms,
    id: Seq<char>,
    user_id: i32,
    message: DuelClientMessage,
) -> bool {
    match message {
        DuelClientMessage::NewRound { hand, board, pos } => rooms.contains_key(id) ==> readable(
            hand@,
            board@,
        ),
        DuelClientMessage::Action { action_idx } => acceptable(rooms, id, user_id, action_idx),
    }
}

impl Broadcast {
    /// Whether everybody in a room is told a message.
    pub open spec fn tells(self, room: Room, message: Message) -> bool {
        self.message@ == message && self.to@ == room.conns()
    }

    /// Whether everybody in a room is told what its complete round has done.
    pub open spec fn tells_result(self, room: Room) -> bool {
        &&& self.message@ matches Message::RoundResult { report }
        &&& reports(report, room)
        &&& self.to@ == room.conns()
    }
}

/// What follows an action of a user.
pub open spec fn is_reaction(
    reaction: Reaction,
    rooms: Rooms,
    id: Seq<char>,
    user_id: i32,
    action: usize,
) -> bool {
    if completes(rooms, id, user_id, action) {
        let room = rooms[id].recorded(user_id, action);
        &&& reaction.broadcast matches Some(broadcast)
        &&& broadcast.tells_result(room)
        &&& match room.resolved().verdict() {
            Some((winner, loser)) => reaction.settled == Some((winner.user_id, loser.user_id)),
            None => reaction.settled is None,
        }
    } else {
        reaction.broadcast is None && reaction.settled is None
    }
}

impl Lobby {
    /// Whether every room is kept in order.
    pub open spec fn wf(self) -> bool {
        rooms_wf(self@)
    }

    /// A lobby without rooms.
    pub fn new() -> (lobby: Lobby)
        ensures
            lobby@ == Map::<Seq<char>, Room>::empty(),
            lobby.wf(),
    {
        let lobby = Lobby { rooms: StringHashMap::new() };
        assert(lobby@ == Map::<Seq<char>, Room>::empty());
        lobby
    }

    /// Whether there is a room of that name.
    pub fn has_room(&self, room_id: &str) -> (found: bool)
        ensures
            found == self@.contains_key(room_id@),
    {
        self.rooms.contains_key(room_id)
    }

    fn room_copy(&self, room_id: &str) -> (room: Option<DuelRoom>)
        ensures
            match room {
                Some(room) => self@.contains_key(room_id@) && room@ == self@[room_id@],
                None => !self@.contains_key(room_id@),
            },
    {
        match self.rooms.get(room_id) {
            Some(room) => Some(room.copy()),
            None => None,
        }
    }

    fn keep(&mut self, room_id: &str, room: DuelRoom)
        ensures
            final(self)@ == old(self)@.insert(room_id@, room@),
    {
        self.rooms.insert(room_id.to_string(), room);
        assert(self@ =~= old(self)@.insert(room_id@, room@));
    }

    fn discard(&mut self, room_id: &str)
        ensures
            final(self)@ == old(self)@.remove(room_id@),
    {
        self.rooms.remove(room_id);
        assert(self@ =~= old(self)@.remove(room_id@));
    }

    /// A player asks for a seat. Where the room is full only this player is
    /// told; where it becomes full both are told that the duel can begin.
    pub fn join(&mut self, room_id: &str, user_id: i32, username: &str, conn: u64) -> (joining:
        Joining)
        requires
            old(self).wf(),
        ensures
            final(self).wf(),
            final(self)@ == joined(old(self)@, room_id@, new_seat(user_id, username@, conn)),
            joining.seated == !is_full(old(self)@, room_id@),
            if is_full(old(self)@, room_id@) {
                &&& joining.broadcast matches Some(broadcast)
                &&& broadcast.message@ == Message::Full
                &&& broadcast.to@ == seq![conn]
            } else if is_full(final(self)@, room_id@) {
                &&& joining.broadcast matches Some(broadcast)
                &&& broadcast.tells(final(self)@[room_id@], Message::Ready)
            } else {
                joining.broadcast is None
            },
    {
        let mut room = match self.room_copy(room_id) {
            Some(room) => room,
            None => DuelRoom::new(),
        };
        assert(room@ == room_at(old(self)@, room_id@));
        assert(room.players@.len() == room@.seats.len());
        if room.players.len() >= SEATS {
            let mut to: Vec<u64> = Vec::new();
            to.push(conn);
            assert(to@ == seq![conn]);
            return Joining {
                seated: false,
                broadcast: Some(Broadcast { message: ServerMessage::Full, to }),
            };
        }
        let player = DuelPlayer {
            user_id,
            username: username.to_string(),
            hp: FULL_HP,
            action: None,
            conn,
        };
        assert(player@ == new_seat(user_id, username@, conn));
        room.add_player(player);
        assert(room.players@.len() == room@.seats.len());
        let broadcast = if room.players.len() == SEATS {
            Some(Broadcast { message: ServerMessage::Ready, to: room.conns() })
        } else {
            None
        };
        self.keep(room_id, room);
        Joining { seated: true, broadcast }
    }

    /// A round begins in a room, if there is one: everybody is told the spot.
    pub fn new_round(&mut self, room_id: &str, hand: &str, board: &str, pos: &str) -> (broadcast:
        Option<Broadcast>)
        requires
            old(self).wf(),
            old(self)@.contains_key(room_id@) ==> readable(hand@, board@),
        ensures
            final(self).wf(),
            final(self)@ == restarted(
                old(self)@,
                room_id@,
                smart_strategy(hand@, board@, Seq::empty()),
            ),
            match broadcast {
                Some(broadcast) => old(self)@.contains_key(room_id@) && broadcast.tells(
                    old(self)@[room_id@],
                    Message::RoundStart { hand: hand@, board: board@, pos: pos@ },
                ),
                None => !old(self)@.contains_key(room_id@),
            },
    {
        let mut room = match self.room_copy(room_id) {
            Some(room) => room,
            None => return None,
        };
        let history = String::new();
        let strategy = get_smart_gto_strategy(hand, board, &history, pos);
        let to = room.conns();
        room.restart(strategy);
        self.keep(room_id, room);
        let message = ServerMessage::RoundStart {
            hand: hand.to_string(),
            board: board.to_string(),
            pos: pos.to_string(),
        };
        Some(Broadcast { message, to })
    }

    /// Whether an action can be taken.
    pub fn accepts(&self, room_id: &str, user_id: i32, action_idx: usize) -> (ok: bool)
        ensures
            ok == acceptable(self@, room_id@, user_id, action_idx),
    {
        let mut room = match self.room_copy(room_id) {
            Some(room) => room,
            None => return true,
        };
        room.record(user_id, action_idx);
        if !room.is_complete() {
            return true;
        }
        assert(room.players@[0]@ == room@.seats[0]);
        assert(room.players@[1]@ == room@.seats[1]);
        room.players[0].action.unwrap() < 4 && room.players[1].action.unwrap() < 4
    }

    /// A user acts.
    pub fn process_duel_action(&mut self, room_id: &str, user_id: i32, action_idx: usize) -> (reaction:
        Reaction)
        requires
            old(self).wf(),
            acceptable(old(self)@, room_id@, user_id, action_idx),
        ensures
            final(self).wf(),
            final(self)@ == acted(old(self)@, room_id@, user_id, action_idx),
            is_reaction(reaction, old(self)@, room_id@, user_id, action_idx),
    {
        let mut room = match self.room_copy(room_id) {
            Some(room) => room,
            None => return Reaction { broadcast: None, settled: None },
        };
        room.record(user_id, action_idx);
        if !room.is_complete() {
            self.keep(room_id, room);
            return Reaction { broadcast: None, settled: None };
        }
        let to = room.conns();
        let report = room.resolve();
        if report.game_over {
            self.discard(room_id);
        } else {
            self.keep(room_id, room);
        }
        let settled = match (report.winner_id, report.loser_id) {
            (Some(winner), Some(loser)) => Some((winner, loser)),
            _ => None,
        };
        let message = ServerMessage::RoundResult { report };
        Reaction { broadcast: Some(Broadcast { message, to }), settled }
    }

    /// A user leaves a room, if there is one: whoever stays is told.
    pub fn leave(&mut self, room_id: &str, user_id: i32) -> (broadcast: Option<Broadcast>)
        requires
            old(self).wf(),
        ensures
            final(self).wf(),
            final(self)@ == left(old(self)@, room_id@, user_id),
            match broadcast {
                Some(broadcast) => old(self)@.contains_key(room_id@) && broadcast.tells(
                    old(self)@[room_id@].without(user_id),
                    Message::OpponentDisconnected,
                ),
                None => !old(self)@.contains_key(room_id@),
            },
    {
        let mut room = match self.room_copy(room_id) {
            Some(room) => room,
            None => return None,
        };
        proof {
            if room@.without(user_id).seats.len() > 0 {
                lemma_without_wf(room@, user_id);
            }
        }
        room.remove_user(user_id);
        let to = room.conns();
        assert(room.players@.len() == room@.seats.len());
        if room.players.len() == 0 {
            self.discard(room_id);
        } else {
            self.keep(room_id, room);
        }
        Some(Broadcast { message: ServerMessage::OpponentDisconnected, to })
    }

    /// Whether a message of a player can be taken.
    pub fn can_receive(&self, room_id: &str, user_id: i32, message: &DuelClientMessage) -> (ok:
        bool)
        ensures
            ok == receivable(self@, room_id@, user_id, *message),
    {
        match message {
            DuelClientMessage::NewRound { hand, board, pos: _ } => !self.has_room(room_id)
                || is_readable(hand, board),
            DuelClientMessage::Action { action_idx } => self.accepts(
                room_id,
                user_id,
                *action_idx,
            ),
        }
    }

    /// A player sends a message.
    pub fn receive(&mut self, room_id: &str, user_id: i32, message: &DuelClientMessage) -> (reaction:
        Reaction)
        requires
            old(self).wf(),
            receivable(old(self)@, room_id@, user_id, *message),
        ensures
            final(self).wf(),
            match *message {
                DuelClientMessage::NewRound { hand, board, pos } => {
                    &&& final(self)@ == restarted(
                        old(self)@,
                        room_id@,
                        smart_strategy(hand@, board@, Seq::empty()),
                    )
                    &&& match reaction.broadcast {
                        Some(broadcast) => old(self)@.contains_key(room_id@) && broadcast.tells(
                            old(self)@[room_id@],
                            Message::RoundStart { hand: hand@, board: board@, pos: pos@ },
                        ),
                        None => !old(self)@.contains_key(room_id@),
                    }
                    &&& reaction.settled is None
                },
                DuelClientMessage::Action { action_idx } => {
                    &&& final(self)@ == acted(old(self)@, room_id@, user_id, action_idx)
                    &&& is_reaction(reaction, old(self)@, room_id@, user_id, action_idx)
                },
            },
    {
        match message {
            DuelClientMessage::NewRound { hand, board, pos } => {
                let broadcast = self.new_round(room_id, hand, board, pos);
                Reaction { broadcast, settled: None }
            },
            DuelClientMessage::Action { action_idx } => self.process_duel_action(
                room_id,
                user_id,
                *action_idx,
            ),
        }
    }
}

/// Leaving undoes joining, for a user who was not in the room.
pub proof fn lemma_leave_undoes_join(rooms: Rooms, id: Seq<char>, seat: Seat)
    requires
        rooms_wf(rooms),
        !is_full(rooms, id),
        forall|i: int|
            0 <= i < room_at(rooms, id).seats.len() ==> (
            #[trigger] room_at(rooms, id).seats[i]).user_id != seat.user_id,
    ensures
        left(joined(rooms, id, seat), id, seat.user_id) == rooms,
{
    let room = room_at(rooms, id);
    let test = |other: Seat| other.user_id != seat.user_id;
    reveal_with_fuel(Seq::filter, 3);
    assert(room.seats.push(seat).drop_last() == room.seats);
    if room.seats.len() == 1 {
        assert(room.seats.drop_last() == Seq::<Seat>::empty());
        assert(room.seats.filter(test) == room.seats);
    }
    assert(room.admitted(seat).without(seat.user_id).seats == room.seats.filter(test));
    assert(left(joined(rooms, id, seat), id, seat.user_id) =~= rooms);
}

/// What happens in a room leaves the others as they are.
pub proof fn lemma_rooms_apart(
    rooms: Rooms,
    id: Seq<char>,
    other: Seq<char>,
    seat: Seat,
    weights: Seq<u32>,
    action: usize,
)
    requires
        other != id,
    ensures
        room_at(joined(rooms, id, seat), other) == room_at(rooms, other),
        room_at(restarted(rooms, id, weights), other) == room_at(rooms, other),
        room_at(acted(rooms, id, seat.user_id, action), other) == room_at(rooms, other),
        room_at(left(rooms, id, seat.user_id), other) == room_at(rooms, other),
{
}

/// Whatever happens, every room has one or two players, all of them alive.
pub proof fn lemma_rooms_stay_wf(
    rooms: Rooms,
    id: Seq<char>,
    seat: Seat,
    weights: Seq<u32>,
    action: usize,
)
    requires
        rooms_wf(rooms),
        0 < seat.hp <= FULL_HP,
        is_strategy(weights),
    ensures
        rooms_wf(joined(rooms, id, seat)),
        rooms_wf(restarted(rooms, id, weights)),
        acceptable(rooms, id, seat.user_id, action) ==> rooms_wf(
            acted(rooms, id, seat.user_id, action),
        ),
        rooms_wf(left(rooms, id, seat.user_id)),
{
    if rooms.contains_key(id) && rooms[id].without(seat.user_id).seats.len() > 0 {
        lemma_without_wf(rooms[id], seat.user_id);
    }
    if acceptable(rooms, id, seat.user_id, action) && completes(rooms, id, seat.user_id, action) {
        let room = rooms[id].recorded(seat.user_id, action);
        lemma_round_costs(room, 0);
        lemma_round_costs(room, 1);
    }
}

/// Once a user has left, nobody of that user id is in the room.
pub proof fn lemma_left_is_gone(rooms: Rooms, id: Seq<char>, user_id: i32)
    ensures
        forall|i: int|
            0 <= i < room_at(left(rooms, id, user_id), id).seats.len() ==> (
            #[trigger] room_at(left(rooms, id, user_id), id).seats[i]).user_id != user_id,
{
    lemma_without_gone(room_at(rooms, id), user_id);
}

/// A player comes in with full health, a thousand points, and no action, as
/// the user of that number and name and under that connection.
pub proof fn lemma_newcomer(user_id: i32, username: Seq<char>, conn: u64)
    ensures
        ({
            let seat = new_seat(user_id, username, conn);
            &&& seat.hp == 1000
            &&& seat.action is None
            &&& seat.user_id == user_id
            &&& seat.username == username
            &&& seat.conn == conn
        }),
{
}

/// A room is full just where two players are in it. Whoever joins one that is
/// not full sits down last, with nobody else's seat and no weights changed, in
/// a new room where there was none; a full room stays as it is.
pub proof fn lemma_joining(rooms: Rooms, id: Seq<char>, seat: Seat)
    requires
        rooms_wf(rooms),
    ensures
        is_full(rooms, id) <==> rooms.contains_key(id) && rooms[id].seats.len() == 2,
        is_full(rooms, id) ==> joined(rooms, id, seat) == rooms,
        !is_full(rooms, id) ==> {
            let after = joined(rooms, id, seat);
            &&& after.contains_key(id)
            &&& rooms.contains_key(id) ==> after[id].seats == seq![rooms[id].seats[0], seat]
                && after[id].weights == rooms[id].weights
            &&& !rooms.contains_key(id) ==> after[id].seats == seq![seat] && after[id].weights
                is None
        },
        forall|other: Seq<char>|
            other != id ==> (#[trigger] joined(rooms, id, seat).contains_key(other)
                <==> rooms.contains_key(other)) && joined(rooms, id, seat)[other] == rooms[other],
{
    if !is_full(rooms, id) {
        let after = joined(rooms, id, seat);
        if rooms.contains_key(id) {
            assert(after[id].seats =~= seq![rooms[id].seats[0], seat]);
        } else {
            assert(after[id].seats =~= seq![seat]);
        }
    }
}

/// A new round opens no room and closes none. In its own room every player
/// keeps seat, user, name, connection and health, nobody's action is left, and
/// the weights are the new ones; the other rooms stay as they are.
pub proof fn lemma_round_start(rooms: Rooms, id: Seq<char>, weights: Seq<u32>)
    ensures
        restarted(rooms, id, weights).dom() == rooms.dom(),
        rooms.contains_key(id) ==> {
            let before = rooms[id];
            let after = restarted(rooms, id, weights)[id];
            &&& after.weights == Some(weights)
            &&& after.seats.len() == before.seats.len()
            &&& forall|i: int|
                0 <= i < before.seats.len() ==> (#[trigger] after.seats[i]).hp
                    == before.seats[i].hp && after.seats[i].user_id == before.seats[i].user_id
                    && after.seats[i].username == before.seats[i].username && after.seats[i].conn
                    == before.seats[i].conn && after.seats[i].action is None
        },
        forall|other: Seq<char>|
            other != id ==> #[trigger] restarted(rooms, id, weights)[other] == rooms[other],
{
    assert(restarted(rooms, id, weights).dom() =~= rooms.dom());
}

/// An action completes a round just where there is a room with two players and
/// weights, and each of the two is the user who acts or has acted before. It
/// can be taken just where it completes no round, or the actions that then
/// stand are among the four.
pub proof fn lemma_completing(rooms: Rooms, id: Seq<char>, user_id: i32, action: usize)
    ensures
        completes(rooms, id, user_id, action) <==> {
            &&& rooms.contains_key(id)
            &&& rooms[id].seats.len() == 2
            &&& rooms[id].weights is Some
            &&& forall|i: int|
                0 <= i < 2 ==> (#[trigger] rooms[id].seats[i]).user_id == user_id
                    || rooms[id].seats[i].action is Some
        },
        acceptable(rooms, id, user_id, action) <==> (completes(rooms, id, user_id, action)
            ==> forall|i: int|
            0 <= i < 2 ==> ((#[trigger] rooms[id].seats[i]).user_id == user_id ==> action <= 3) && (
            rooms[id].seats[i].user_id != user_id ==> rooms[id].seats[i].action->0 <= 3)),
{
    if rooms.contains_key(id) {
        let before = rooms[id];
        let after = before.recorded(user_id, action);
        assert(after.seats.len() == before.seats.len());
        assert forall|i: int| 0 <= i < before.seats.len() implies (
        before.seats[i].user_id == user_id ==> (#[trigger] after.seats[i]).action == Some(action))
            && (before.seats[i].user_id != user_id ==> after.seats[i] == before.seats[i]) by {}
        if before.seats.len() == 2 {
            let one = after.seats[0];
            let two = after.seats[1];
            assert(before.seats[0].user_id == user_id || before.seats[0] == one);
            assert(before.seats[1].user_id == user_id || before.seats[1] == two);
        }
    }
}

/// An action that completes no round is kept on the user's seats, and changes
/// nothing else: no health, no other action, no weights and no other room.
pub proof fn lemma_waiting(rooms: Rooms, id: Seq<char>, user_id: i32, action: usize)
    requires
        !completes(rooms, id, user_id, action),
    ensures
        acted(rooms, id, user_id, action).dom() == rooms.dom(),
        rooms.contains_key(id) ==> {
            let before = rooms[id];
            let after = acted(rooms, id, user_id, action)[id];
            &&& after.weights == before.weights
            &&& after.seats.len() == before.seats.len()
            &&& forall|i: int|
                0 <= i < before.seats.len() ==> (#[trigger] after.seats[i]).hp
                    == before.seats[i].hp && after.seats[i].user_id == before.seats[i].user_id
                    && after.seats[i].username == before.seats[i].username && after.seats[i].conn
                    == before.seats[i].conn && after.seats[i].action == (
                if before.seats[i].user_id == user_id {
                    Some(action)
                } else {
                    before.seats[i].action
                })
        },
        forall|other: Seq<char>|
            other != id ==> #[trigger] acted(rooms, id, user_id, action)[other] == rooms[other],
{
    assert(acted(rooms, id, user_id, action).dom() =~= rooms.dom());
}

/// From the start of a round on, two users each play an action: what each has
/// left is the health from before the round, less what the own weight falls
/// short of the largest, `weights[best]`. While both have some left, the room
/// goes on with it; otherwise the room is gone.
pub proof fn lemma_whole_round(
    rooms: Rooms,
    id: Seq<char>,
    weights: Seq<u32>,
    best: int,
    first: usize,
    second: usize,
)
    requires
        rooms_wf(rooms),
        rooms.contains_key(id),
        rooms[id].seats.len() == 2,
        rooms[id].seats[0].user_id != rooms[id].seats[1].user_id,
        is_strategy(weights),
        first < 4,
        second < 4,
        0 <= best < 4,
        forall|j: int| 0 <= j < 4 ==> #[trigger] weights[j] <= weights[best],
    ensures
        ({
            let one = rooms[id].seats[0];
            let two = rooms[id].seats[1];
            let left_one = one.hp - (weights[best] - weights[first as int]);
            let left_two = two.hp - (weights[best] - weights[second as int]);
            let begun = restarted(rooms, id, weights);
            let between = acted(begun, id, one.user_id, first);
            let after = acted(between, id, two.user_id, second);
            &&& !completes(begun, id, one.user_id, first)
            &&& completes(between, id, two.user_id, second)
            &&& acceptable(between, id, two.user_id, second)
            &&& after.contains_key(id) <==> left_one > 0 && left_two > 0
            &&& after.contains_key(id) ==> after[id].seats.len() == 2 && after[id].seats[0].hp
                == left_one && after[id].seats[1].hp == left_two && after[id].seats[0].user_id
                == one.user_id && after[id].seats[1].user_id == two.user_id
                && after[id].seats[0].action is None && after[id].seats[1].action is None
            &&& forall|other: Seq<char>|
                other != id ==> (#[trigger] after.contains_key(other) <==> rooms.contains_key(
                    other,
                )) && after[other] == rooms[other]
        }),
{
    let one = rooms[id].seats[0];
    let two = rooms[id].seats[1];
    let begun = restarted(rooms, id, weights);
    let between = acted(begun, id, one.user_id, first);
    let after = acted(between, id, two.user_id, second);
    let judged_room = between[id].recorded(two.user_id, second);
    assert(begun[id].recorded(one.user_id, first).seats[1].action is None);
    assert(judged_room.seats[0].action == Some(first));
    assert(judged_room.seats[1].action == Some(second));
    assert(judged_room.weights == Some(weights));
    assert(judged_room.seats[0].hp == one.hp && judged_room.seats[1].hp == two.hp);
    assert(judged_room.wf());
    assert(judged_room.playable());
    lemma_judging(judged_room, 0, best);
    lemma_judging(judged_room, 1, best);
    assert(after == if judged_room.resolved().over() {
        between.remove(id)
    } else {
        between.insert(id, judged_room.resolved())
    });
}

/// The action that a seat stands for once a user has acted.
pub open spec fn played(seat: Seat, user_id: i32, action: usize) -> usize {
    if seat.user_id == user_id {
        action
    } else {
        seat.action->0
    }
}

/// An action that completes a round leaves each player the health less the
/// loss, down to zero. Where somebody then has none, the room is gone; else it
/// goes on with the same players and weights, and nobody's action. Both
/// connections are told the result, and ratings change just where one of the
/// two is left alive: the winner's and the loser's.
pub proof fn lemma_reaction(
    reaction: Reaction,
    rooms: Rooms,
    id: Seq<char>,
    user_id: i32,
    action: usize,
)
    requires
        rooms_wf(rooms),
        acceptable(rooms, id, user_id, action),
        is_reaction(reaction, rooms, id, user_id, action),
    ensures
        reaction.broadcast is Some <==> completes(rooms, id, user_id, action),
        reaction.broadcast is None ==> reaction.settled is None,
        reaction.broadcast matches Some(broadcast) ==> {
            &&& broadcast.to@ == seq![rooms[id].seats[0].conn, rooms[id].seats[1].conn]
            &&& broadcast.message@ matches Message::RoundResult { report }
            &&& report.p1_id == rooms[id].seats[0].user_id
            &&& report.p2_id == rooms[id].seats[1].user_id
            &&& report.p1_hp == vstd::math::max(0, rooms[id].seats[0].hp - report.p1_loss)
            &&& report.p2_hp == vstd::math::max(0, rooms[id].seats[1].hp - report.p2_loss)
            &&& ({
                let weights = rooms[id].weights->0;
                let one = weights[played(rooms[id].seats[0], user_id, action) as int];
                let two = weights[played(rooms[id].seats[1], user_id, action) as int];
                &&& forall|j: int| 0 <= j < 4 ==> report.p1_loss + one >= #[trigger] weights[j]
                &&& exists|j: int| 0 <= j < 4 && report.p1_loss + one == #[trigger] weights[j]
                &&& report.p1_loss + one == report.p2_loss + two
            })
            &&& report.game_over <==> report.p1_hp == 0 || report.p2_hp == 0
            &&& reaction.settled == (if report.p1_hp > 0 && report.p2_hp == 0 {
                Some((report.p1_id, report.p2_id))
            } else if report.p2_hp > 0 && report.p1_hp == 0 {
                Some((report.p2_id, report.p1_id))
            } else {
                None
            })
            &&& acted(rooms, id, user_id, action).contains_key(id) <==> !report.game_over
            &&& !report.game_over ==> {
                let after = acted(rooms, id, user_id, action)[id];
                &&& after.weights == rooms[id].weights
                &&& after.seats.len() == 2
                &&& after.seats[0].hp == report.p1_hp
                &&& after.seats[1].hp == report.p2_hp
                &&& forall|i: int|
                    0 <= i < 2 ==> (#[trigger] after.seats[i]).action is None
                        && after.seats[i].user_id == rooms[id].seats[i].user_id
                        && after.seats[i].username == rooms[id].seats[i].username
                        && after.seats[i].conn == rooms[id].seats[i].conn
            }
        },
{
    if completes(rooms, id, user_id, action) {
        let room = rooms[id].recorded(user_id, action);
        let broadcast = reaction.broadcast->0;
        assert(room.wf()) by {
            assert forall|i: int| 0 <= i < room.seats.len() implies 0 < (
            #[trigger] room.seats[i]).hp <= FULL_HP by {
                assert(room.seats[i].hp == rooms[id].seats[i].hp);
            }
        }
        assert(room.conns() =~= seq![rooms[id].seats[0].conn, rooms[id].seats[1].conn]);
        let report = broadcast.message@->RoundResult_report;
        lemma_report(report, room);
        assert(room.resolved().seats.len() == 2);
        assert forall|i: int| 0 <= i < 2 implies (
        #[trigger] room.resolved().seats[i]).action is None && room.resolved().seats[i].user_id
            == rooms[id].seats[i].user_id && room.resolved().seats[i].username
            == rooms[id].seats[i].username && room.resolved().seats[i].conn
            == rooms[id].seats[i].conn by {}
    }
}

/// Whoever leaves takes only the own seats along. A room that still has a
/// player goes on with that player's seat and its weights as they were; an
/// empty one is gone.
pub proof fn lemma_leaving(rooms: Rooms, id: Seq<char>, user_id: i32)
    requires
        rooms_wf(rooms),
    ensures
        !rooms.contains_key(id) ==> left(rooms, id, user_id) == rooms,
        rooms.contains_key(id) ==> {
            let seats = rooms[id].seats;
            let after = left(rooms, id, user_id);
            &&& after.contains_key(id) <==> exists|i: int|
                0 <= i < seats.len() && (#[trigger] seats[i]).user_id != user_id
            &&& after.contains_key(id) ==> after[id].weights == rooms[id].weights
            &&& seats.len() == 1 && after.contains_key(id) ==> after[id].seats == seats
            &&& seats.len() == 2 && after.contains_key(id) ==> after[id].seats == (
            if seats[0].user_id == user_id {
                seq![seats[1]]
            } else if seats[1].user_id == user_id {
                seq![seats[0]]
            } else {
                seats
            })
        },
        forall|other: Seq<char>|
            other != id ==> (#[trigger] left(rooms, id, user_id).contains_key(other)
                <==> rooms.contains_key(other)) && left(rooms, id, user_id)[other] == rooms[other],
{
    if rooms.contains_key(id) {
        let seats = rooms[id].seats;
        lemma_departure(rooms[id], user_id);
        assert(seats.len() == 1 || seats.len() == 2);
        if seats[0].user_id == user_id && (seats.len() == 1 || seats[1].user_id == user_id) {
            assert(rooms[id].without(user_id).seats.len() == 0);
        } else if seats[0].user_id != user_id {
            assert(seats[0].user_id != user_id);
        } else {
            assert(seats[1].user_id != user_id);
        }
    }
}

/// Everybody in a room is told a message just where the message is that one,
/// and goes to the connection of each seat, in their order.
pub proof fn lemma_telling(broadcast: Broadcast, room: Room, message: Message)
    ensures
        broadcast.tells(room, message) <==> {
            &&& broadcast.message@ == message
            &&& broadcast.to@.len() == room.seats.len()
            &&& forall|i: int|
                0 <= i < room.seats.len() ==> #[trigger] broadcast.to@[i] == room.seats[i].conn
        },
{
    if broadcast.to@.len() == room.seats.len() && forall|i: int|
        0 <= i < room.seats.len() ==> #[trigger] broadcast.to@[i] == room.seats[i].conn {
        assert(broadcast.to@ =~= room.conns());
    }
    if broadcast.to@ == room.conns() {
        assert forall|i: int| 0 <= i < room.seats.len() implies #[trigger] broadcast.to@[i]
            == room.seats[i].conn by {
            assert(room.conns()[i] == room.seats[i].conn);
        }
    }
}

/// A round can be begun anywhere with a spot that can be read, and an action of
/// the four is taken wherever the opponent's is one of them or still missing.
pub proof fn lemma_receiving(rooms: Rooms, id: Seq<char>, user_id: i32, message: DuelClientMessage)
    ensures
        message matches DuelClientMessage::NewRound { hand, board, pos } ==> (receivable(
            rooms,
            id,
            user_id,
            message,
        ) <==> !rooms.contains_key(id) || readable(hand@, board@)),
        message matches DuelClientMessage::Action { action_idx } ==> (receivable(
            rooms,
            id,
            user_id,
            message,
        ) <==> acceptable(rooms, id, user_id, action_idx)),
        !rooms.contains_key(id) ==> receivable(rooms, id, user_id, message),
        message matches DuelClientMessage::Action { action_idx } && action_idx < 4
            && rooms.contains_key(id) && (forall|i: int|
            0 <= i < rooms[id].seats.len() && (#[trigger] rooms[id].seats[i]).action is Some
                ==> rooms[id].seats[i].action->0 < 4) ==> receivable(rooms, id, user_id, message),
{
    if let DuelClientMessage::Action { action_idx } = message {
        lemma_completing(rooms, id, user_id, action_idx);
    }
}

/// The rooms are kept in order just where every one of them is.
pub proof fn lemma_rooms_order(rooms: Rooms, id: Seq<char>)
    requires
        rooms_wf(rooms),
        rooms.contains_key(id),
    ensures
        1 <= rooms[id].seats.len() <= 2,
        forall|i: int|
            0 <= i < rooms[id].seats.len() ==> 1 <= (#[trigger] rooms[id].seats[i]).hp <= 1000,
        rooms[id].weights matches Some(weights) ==> is_strategy(weights),
{
}

} // verus!
