use poker_arena::duel::RoundReport;
use poker_arena::lobby::{Broadcast, DuelClientMessage, Lobby};
use poker_arena::wire::{encode, message_object, ServerMessage};

fn text_to(broadcast: Option<Broadcast>) -> Option<(String, Vec<u64>)> {
    broadcast.map(|broadcast| (encode(&broadcast.message), broadcast.to))
}

/// A room of two players, 1 and 2, on the connections 10 and 20.
fn room_of_two() -> Lobby {
    let mut lobby = Lobby::new();
    assert!(lobby.join("r", 1, "anna", 10).seated);
    assert!(lobby.join("r", 2, "jan", 20).seated);
    lobby
}

/// A room of two players in a round whose weights are 0, 20, 60 and 20.
fn room_in_round() -> Lobby {
    let mut lobby = room_of_two();
    assert!(lobby.new_round("r", "9h4d", "9c8s2h", "BTN").is_some());
    lobby
}

fn report_of(broadcast: Option<Broadcast>) -> RoundReport {
    match broadcast {
        Some(Broadcast { message: ServerMessage::RoundResult { report }, .. }) => report,
        _ => panic!("no result"),
    }
}

#[test]
fn duel_begins_when_the_room_is_full() {
    let mut lobby = Lobby::new();
    let first = lobby.join("r", 1, "anna", 10);
    assert!(first.seated && first.broadcast.is_none());
    let second = lobby.join("r", 2, "jan", 20);
    assert!(second.seated);
    assert_eq!(
        text_to(second.broadcast),
        Some(("{\"type\":\"ready\"}".to_string(), vec![10, 20]))
    );
    let third = lobby.join("r", 3, "ewa", 30);
    assert!(!third.seated);
    assert_eq!(
        text_to(third.broadcast),
        Some((
            "{\"msg\":\"Pokój jest pełny\",\"type\":\"error\"}".to_string(),
            vec![30]
        ))
    );
    assert!(lobby.join("s", 3, "ewa", 30).seated);
}

#[test]
fn duel_round_start_is_told_to_everybody() {
    let mut lobby = room_of_two();
    assert_eq!(
        text_to(lobby.new_round("r", "9h4d", "9c8s2h", "BTN")),
        Some((
            "{\"board\":\"9c8s2h\",\"hand\":\"9h4d\",\"pos\":\"BTN\",\"type\":\"round_start\"}"
                .to_string(),
            vec![10, 20]
        ))
    );
    assert!(lobby.new_round("s", "9h4d", "9c8s2h", "BTN").is_none());
    assert!(lobby.new_round("s", "", "ż", "BTN").is_none());
}

#[test]
fn duel_round_is_judged_when_both_have_acted() {
    let mut lobby = room_in_round();
    let first = lobby.process_duel_action("r", 1, 2);
    assert!(first.broadcast.is_none() && first.settled.is_none());
    let second = lobby.process_duel_action("r", 2, 0);
    assert!(second.settled.is_none());
    assert_eq!(
        text_to(second.broadcast),
        Some((
            "{\"game_over\":false,\"p1_hp\":1000,\"p1_id\":1,\"p1_loss\":0,\
             \"p2_hp\":940,\"p2_id\":2,\"p2_loss\":60,\"type\":\"round_result\",\
             \"winner_id\":null}"
                .to_string(),
            vec![10, 20]
        ))
    );
    // The actions are gone, the weights are not.
    assert!(lobby.process_duel_action("r", 2, 0).broadcast.is_none());
    let again = report_of(lobby.process_duel_action("r", 1, 1).broadcast);
    assert_eq!((again.p1_hp, again.p1_loss), (960, 40));
    assert_eq!((again.p2_hp, again.p2_loss), (880, 60));
}

#[test]
fn duel_ends_when_a_player_is_dead() {
    let mut lobby = room_in_round();
    for round in 1..=17 {
        assert!(lobby.process_duel_action("r", 1, 2).broadcast.is_none());
        let reaction = lobby.process_duel_action("r", 2, 0);
        let report = report_of(reaction.broadcast);
        assert_eq!(report.p1_hp, 1000);
        assert_eq!(report.p2_hp, (1000 - 60 * round).max(0));
        assert_eq!(report.game_over, round == 17);
        if round == 17 {
            assert_eq!(report.winner_id, Some(1));
            assert_eq!(report.loser_id, Some(2));
            assert_eq!(reaction.settled, Some((1, 2)));
        } else {
            assert!(reaction.settled.is_none());
        }
    }
    assert!(!lobby.has_room("r"));
    assert!(lobby.process_duel_action("r", 1, 2).broadcast.is_none());
}

#[test]
fn duel_second_player_can_win() {
    let mut lobby = room_in_round();
    for _ in 1..17 {
        lobby.process_duel_action("r", 1, 0);
        lobby.process_duel_action("r", 2, 1);
    }
    lobby.process_duel_action("r", 1, 0);
    let reaction = lobby.process_duel_action("r", 2, 1);
    assert_eq!(reaction.settled, Some((2, 1)));
    assert_eq!(report_of(reaction.broadcast).p2_hp, 1000 - 17 * 40);
}

#[test]
fn duel_can_end_without_a_winner() {
    let mut lobby = room_in_round();
    for _ in 1..17 {
        lobby.process_duel_action("r", 1, 0);
        lobby.process_duel_action("r", 2, 0);
    }
    lobby.process_duel_action("r", 1, 0);
    let reaction = lobby.process_duel_action("r", 2, 0);
    let report = report_of(reaction.broadcast);
    assert!(report.game_over);
    assert_eq!((report.p1_hp, report.p2_hp), (0, 0));
    assert_eq!((report.winner_id, report.loser_id), (None, None));
    assert!(reaction.settled.is_none());
    assert!(!lobby.has_room("r"));
}

#[test]
fn duel_waits_for_a_round() {
    let mut lobby = room_of_two();
    lobby.process_duel_action("r", 1, 2);
    assert!(lobby.process_duel_action("r", 2, 2).broadcast.is_none());
    // The round forgets what was chosen before it.
    lobby.new_round("r", "9h4d", "9c8s2h", "BTN");
    assert!(lobby.process_duel_action("r", 1, 2).broadcast.is_none());
    assert!(lobby.process_duel_action("r", 2, 2).broadcast.is_some());
}

#[test]
fn duel_last_action_counts() {
    let mut lobby = room_in_round();
    lobby.process_duel_action("r", 1, 0);
    lobby.process_duel_action("r", 1, 2);
    let report = report_of(lobby.process_duel_action("r", 2, 2).broadcast);
    assert_eq!((report.p1_loss, report.p2_loss), (0, 0));
}

#[test]
fn duel_of_one_user_with_two_connections() {
    let mut lobby = Lobby::new();
    lobby.join("r", 1, "anna", 10);
    lobby.join("r", 1, "anna", 11);
    lobby.new_round("r", "9h4d", "9c8s2h", "BTN");
    let report = report_of(lobby.process_duel_action("r", 1, 3).broadcast);
    assert_eq!((report.p1_loss, report.p2_loss), (40, 40));
    let broadcast = lobby.leave("r", 1);
    assert_eq!(broadcast.map(|broadcast| broadcast.to), Some(vec![]));
    assert!(!lobby.has_room("r"));
}

#[test]
fn duel_action_beyond_the_four_is_acceptable_until_judged() {
    let mut lobby = room_in_round();
    assert!(lobby.accepts("r", 1, 9));
    lobby.process_duel_action("r", 1, 9);
    assert!(!lobby.accepts("r", 2, 0));
    assert!(!lobby.can_receive("r", 2, &DuelClientMessage::Action { action_idx: 0 }));
    assert!(lobby.accepts("r", 1, 3));
    lobby.process_duel_action("r", 1, 3);
    assert!(lobby.accepts("r", 2, 0));
    assert!(!lobby.accepts("r", 2, 4));
    assert!(lobby.accepts("s", 2, 4));
}

#[test]
fn duel_leaving_is_told_to_whoever_stays() {
    let mut lobby = room_of_two();
    assert_eq!(
        text_to(lobby.leave("r", 1)),
        Some(("{\"type\":\"opponent_disconnected\"}".to_string(), vec![20]))
    );
    assert!(lobby.has_room("r"));
    assert!(lobby.leave("r", 2).is_some());
    assert!(!lobby.has_room("r"));
    assert!(lobby.leave("r", 2).is_none());
}

#[test]
fn duel_leaving_undoes_joining() {
    let mut lobby = Lobby::new();
    lobby.join("r", 1, "anna", 10);
    lobby.join("r", 2, "jan", 20);
    lobby.leave("r", 2);
    let again = lobby.join("r", 3, "ewa", 30);
    assert!(again.seated);
    assert_eq!(again.broadcast.map(|broadcast| broadcast.to), Some(vec![10, 30]));
}

#[test]
fn duel_rooms_are_apart() {
    let mut lobby = room_in_round();
    lobby.join("s", 1, "anna", 11);
    lobby.process_duel_action("r", 1, 2);
    lobby.leave("s", 1);
    assert!(!lobby.has_room("s"));
    assert!(lobby.process_duel_action("r", 2, 2).broadcast.is_some());
}

#[test]
fn duel_messages_are_received() {
    let mut lobby = room_of_two();
    let start = DuelClientMessage::NewRound {
        hand: "9h4d".to_string(),
        board: "9c8s2h".to_string(),
        pos: "BTN".to_string(),
    };
    assert!(lobby.can_receive("r", 1, &start));
    let reaction = lobby.receive("r", 1, &start);
    assert_eq!(reaction.broadcast.map(|broadcast| broadcast.to), Some(vec![10, 20]));
    let action = DuelClientMessage::Action { action_idx: 2 };
    assert!(lobby.receive("r", 1, &action).broadcast.is_none());
    assert!(lobby.receive("r", 2, &action).broadcast.is_some());
    let unreadable = DuelClientMessage::NewRound {
        hand: "9h".to_string(),
        board: String::new(),
        pos: String::new(),
    };
    assert!(!lobby.can_receive("r", 1, &unreadable));
    assert!(lobby.can_receive("s", 1, &unreadable));
    assert!(lobby.receive("s", 1, &unreadable).broadcast.is_none());
}

#[test]
fn duel_texts_are_escaped() {
    let message = ServerMessage::RoundStart {
        hand: "a\"b".to_string(),
        board: "\\".to_string(),
        pos: "ż\n".to_string(),
    };
    assert_eq!(
        encode(&message),
        "{\"board\":\"\\\\\",\"hand\":\"a\\\"b\",\"pos\":\"ż\\n\",\"type\":\"round_start\"}"
    );
    let object = message_object(&message);
    assert_eq!(object.len(), 4);
    assert_eq!(object["hand"], "a\"b");
}
