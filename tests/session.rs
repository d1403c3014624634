use connect4::ledger::{Board, PlayerMove};
use connect4::messages::{BusEvent, NetworkMessage, Players};
use connect4::session::{Effect, GameState, Role, Status};

const ME: u8 = 7;
const PEER: u8 = 8;
const OTHER: u8 = 9;

fn ev(id: u8, author: u8, message: Option<NetworkMessage>) -> BusEvent {
    BusEvent { id: vec![id, 0xab], author: vec![author; 4], message }
}

fn session() -> GameState {
    GameState::new(vec![ME; 4], "connect4.xyz game_id = /abc".to_string(), Some("me".to_string()))
}

fn started_host() -> (GameState, Board) {
    let mut s = session();
    let mut b = Board::new();
    let players = Players::new(Some("me".to_string()), Some("bob".to_string()), vec![ME; 4], vec![PEER; 4]);
    s.handle_events(&mut b, &vec![ev(1, PEER, Some(NetworkMessage::JoinGame(players)))]);
    (s, b)
}

fn input(id: u8, column: usize) -> BusEvent {
    ev(id, PEER, Some(NetworkMessage::Input(column)))
}

#[test]
fn new_session_is_unassigned() {
    let s = session();
    assert!(!s.started);
    assert_eq!(s.role, Role::Unassigned);
    assert_eq!(s.peer_label, None);
    assert_eq!(s.topic, "connect4.xyz game_id = /abc");
    assert!(s.applied.is_empty());
}

#[test]
fn join_game_makes_the_host_start() {
    let (s, b) = started_host();
    assert!(s.started);
    assert_eq!(s.role, Role::Host);
    assert_eq!(s.peer_label, Some("bob".to_string()));
    assert_eq!(b.moves.len(), 0);
}

#[test]
fn new_game_makes_a_guest() {
    let mut s = session();
    let mut b = Board::new();
    let fx = s.handle_events(&mut b, &vec![ev(1, PEER, Some(NetworkMessage::NewGame(Some("alice".to_string()))))]);
    assert_eq!(fx, vec![Effect::RoleAssigned(Role::Guest)]);
    assert_eq!(s.role, Role::Guest);
    assert_eq!(s.peer_label, Some("alice".to_string()));
    assert!(s.started);
}

#[test]
fn role_messages_after_start_are_ignored() {
    let (mut s, mut b) = started_host();
    let fx = s.handle_events(
        &mut b,
        &vec![
            ev(2, OTHER, Some(NetworkMessage::NewGame(Some("eve".to_string())))),
            ev(3, OTHER, Some(NetworkMessage::StartGame(Players::new(None, None, vec![], vec![])))),
            ev(4, OTHER, Some(NetworkMessage::Spectate(vec![PlayerMove::new(1, 0, 0)]))),
        ],
    );
    assert!(fx.is_empty());
    assert_eq!(s.role, Role::Host);
    assert_eq!(s.peer_label, Some("bob".to_string()));
    assert_eq!(b.moves.len(), 0);
}

#[test]
fn start_game_makes_a_spectator() {
    let mut s = session();
    let mut b = Board::new();
    let fx = s.handle_events(&mut b, &vec![ev(1, PEER, Some(NetworkMessage::StartGame(Players::new(None, None, vec![1], vec![2]))))]);
    assert_eq!(fx, vec![Effect::RoleAssigned(Role::Spectator)]);
    assert_eq!(s.role, Role::Spectator);
    assert!(s.started);
}

#[test]
fn input_before_start_is_dropped() {
    let mut s = session();
    let mut b = Board::new();
    let fx = s.handle_events(&mut b, &vec![input(1, 3)]);
    assert!(fx.is_empty());
    assert_eq!(b.moves.len(), 0);
}

#[test]
fn inputs_apply_in_delivery_order() {
    let (mut s, mut b) = started_host();
    let fx = s.handle_events(&mut b, &vec![input(2, 3), input(3, 3), input(4, 0)]);
    assert_eq!(
        fx,
        vec![
            Effect::MoveAccepted(PlayerMove::new(1, 3, 0)),
            Effect::MoveAccepted(PlayerMove::new(2, 3, 1)),
            Effect::MoveAccepted(PlayerMove::new(1, 0, 0)),
        ]
    );
    assert_eq!(b.player_turn, 2);
}

#[test]
fn input_into_full_column_is_dropped() {
    let (mut s, mut b) = started_host();
    let evs: Vec<BusEvent> = (0..6).map(|i| input(10 + i, 5)).collect();
    s.handle_events(&mut b, &evs);
    assert_eq!(b.moves.len(), 6);
    let fx = s.handle_events(&mut b, &vec![input(30, 5)]);
    assert!(fx.is_empty());
    assert_eq!(b.moves.len(), 6);
    assert_eq!(b.player_turn, 1);
}

#[test]
fn input_off_the_board_is_dropped() {
    let (mut s, mut b) = started_host();
    let fx = s.handle_events(&mut b, &vec![input(2, 7)]);
    assert!(fx.is_empty());
    assert_eq!(b.moves.len(), 0);
}

#[test]
fn winning_input_reports_game_over() {
    let (mut s, mut b) = started_host();
    let evs: Vec<BusEvent> = [0usize, 0, 1, 1, 2, 2, 3].iter().enumerate().map(|(i, c)| input(10 + i as u8, *c)).collect();
    let fx = s.handle_events(&mut b, &evs);
    assert_eq!(fx.len(), 8);
    assert_eq!(fx[6], Effect::MoveAccepted(PlayerMove::new(1, 3, 0)));
    assert_eq!(fx[7], Effect::GameOver(Some(1)));
    assert_eq!(b.winner, Some(1));
    assert_eq!(s.status(&b), Status::Won);
}

#[test]
fn redelivered_backlog_changes_nothing() {
    let (mut s, mut b) = started_host();
    let batch = vec![input(2, 3), input(3, 4), ev(4, ME, Some(NetworkMessage::Input(6))), input(5, 3)];
    let first = s.handle_events(&mut b, &batch);
    assert_eq!(first.len(), 3);
    let moves = b.moves.clone();
    let turn = b.player_turn;
    let second = s.handle_events(&mut b, &batch);
    assert!(second.is_empty());
    assert_eq!(b.moves, moves);
    assert_eq!(b.player_turn, turn);
}

#[test]
fn own_events_are_never_applied() {
    let (mut s, mut b) = started_host();
    let fx = s.handle_events(&mut b, &vec![ev(2, ME, Some(NetworkMessage::Input(1))), ev(3, ME, Some(NetworkMessage::Replay))]);
    assert!(fx.is_empty());
    assert_eq!(b.moves.len(), 0);
    assert!(s.started);
}

#[test]
fn undecodable_event_is_skipped() {
    let (mut s, mut b) = started_host();
    let fx = s.handle_events(&mut b, &vec![ev(2, PEER, None), input(3, 2)]);
    assert_eq!(fx, vec![Effect::MoveAccepted(PlayerMove::new(1, 2, 0))]);
    assert_eq!(s.applied.len(), 3);
}

#[test]
fn replay_clears_board_and_role_but_keeps_topic() {
    let (mut s, mut b) = started_host();
    s.handle_events(&mut b, &vec![input(2, 3), input(3, 4)]);
    let topic = s.topic.clone();
    let fx = s.handle_events(&mut b, &vec![ev(4, PEER, Some(NetworkMessage::Replay))]);
    assert_eq!(fx, vec![Effect::Replayed]);
    assert_eq!(b.moves.len(), 0);
    assert_eq!(b.player_turn, 1);
    assert!(!s.started);
    assert_eq!(s.role, Role::Unassigned);
    assert_eq!(s.peer_label, None);
    assert_eq!(s.topic, topic);
    assert_eq!(s.local_label, Some("me".to_string()));
}

#[test]
fn spectate_loads_a_valid_move_list() {
    let mut s = session();
    let mut b = Board::new();
    let moves = vec![PlayerMove::new(1, 3, 0), PlayerMove::new(2, 3, 1), PlayerMove::new(1, 0, 0)];
    let fx = s.handle_events(&mut b, &vec![ev(1, PEER, Some(NetworkMessage::Spectate(moves.clone())))]);
    assert_eq!(
        fx,
        vec![
            Effect::Replayed,
            Effect::MoveAccepted(moves[0]),
            Effect::MoveAccepted(moves[1]),
            Effect::MoveAccepted(moves[2]),
            Effect::RoleAssigned(Role::Spectator),
        ]
    );
    assert_eq!(b.moves, moves);
    assert_eq!(b.player_turn, 2);
    assert_eq!(s.role, Role::Spectator);
    assert!(s.started);
    assert_eq!(s.status(&b), Status::Spectating(2));
}

#[test]
fn spectate_with_an_impossible_list_is_dropped() {
    let mut s = session();
    let mut b = Board::new();
    let floating = vec![PlayerMove::new(1, 3, 2)];
    let wrong_turn = vec![PlayerMove::new(2, 3, 0)];
    let fx = s.handle_events(
        &mut b,
        &vec![
            ev(1, PEER, Some(NetworkMessage::Spectate(floating))),
            ev(2, PEER, Some(NetworkMessage::Spectate(wrong_turn))),
        ],
    );
    assert!(fx.is_empty());
    assert_eq!(b.moves.len(), 0);
    assert!(!s.started);
    assert_eq!(s.role, Role::Unassigned);
}

#[test]
fn lfg_changes_nothing() {
    let mut s = session();
    let mut b = Board::new();
    let fx = s.handle_events(&mut b, &vec![ev(1, PEER, Some(NetworkMessage::Lfg))]);
    assert!(fx.is_empty());
    assert!(!s.started);
    assert_eq!(s.applied.len(), 1);
}

#[test]
fn empty_batch_returns_at_once() {
    let (mut s, mut b) = started_host();
    let fx = s.handle_events(&mut b, &Vec::new());
    assert!(fx.is_empty());
    assert!(s.started);
}

#[test]
fn local_input_on_own_turn_is_applied_and_published() {
    let (s, mut b) = started_host();
    let (msg, fx) = s.send_input(&mut b, 4);
    assert!(matches!(msg, Some(NetworkMessage::Input(4))));
    assert_eq!(fx, vec![Effect::MoveAccepted(PlayerMove::new(1, 4, 0))]);
    assert_eq!(b.moves.len(), 1);
    let (again, fx2) = s.send_input(&mut b, 4);
    assert!(again.is_none());
    assert!(fx2.is_empty());
    assert_eq!(b.moves.len(), 1);
}

#[test]
fn local_input_is_refused_before_start_or_while_falling() {
    let s = session();
    let mut b = Board::new();
    let (msg, _) = s.send_input(&mut b, 0);
    assert!(msg.is_none());
    let (host, mut b2) = started_host();
    b2.in_progress = true;
    let (msg2, _) = host.send_input(&mut b2, 0);
    assert!(msg2.is_none());
    b2.in_progress = false;
    let (msg3, _) = host.send_input(&mut b2, 9);
    assert!(msg3.is_none());
    assert_eq!(b2.moves.len(), 0);
}

#[test]
fn status_follows_the_game() {
    let s = session();
    let b = Board::new();
    assert_eq!(s.status(&b), Status::WaitingForPlayer);
    let (mut host, mut hb) = started_host();
    assert_eq!(host.status(&hb), Status::YourTurn);
    host.handle_events(&mut hb, &vec![input(2, 1)]);
    assert_eq!(host.status(&hb), Status::OpponentsTurn);
    let evs: Vec<BusEvent> = [0usize, 2, 0, 2, 0, 3, 0].iter().enumerate().map(|(i, c)| input(10 + i as u8, *c)).collect();
    host.handle_events(&mut hb, &evs);
    assert_eq!(hb.winner, Some(2));
    assert_eq!(host.status(&hb), Status::Lost);
}

#[test]
fn spectator_sees_game_over() {
    let mut s = session();
    let mut b = Board::new();
    let mut evs = vec![ev(1, PEER, Some(NetworkMessage::StartGame(Players::new(None, None, vec![], vec![]))))];
    for (i, c) in [0usize, 0, 1, 1, 2, 2, 3].iter().enumerate() {
        evs.push(input(10 + i as u8, *c));
    }
    s.handle_events(&mut b, &evs);
    assert_eq!(s.status(&b), Status::GameOver(1));
}

#[test]
fn peer_to_follow_names_the_opponent() {
    let s = session();
    let open = ev(1, PEER, Some(NetworkMessage::NewGame(None)));
    assert_eq!(s.peer_to_follow(&open), Some(vec![PEER; 4]));
    let own = ev(2, ME, Some(NetworkMessage::NewGame(None)));
    assert_eq!(s.peer_to_follow(&own), None);
    assert_eq!(s.peer_to_follow(&input(3, 1)), None);
    let mut watcher = session();
    watcher.role = Role::Spectator;
    assert_eq!(watcher.peer_to_follow(&open), None);
}

#[test]
fn takes_only_foreign_unseen_events() {
    let (s, _) = started_host();
    assert!(!s.takes(&[ME; 4], &[9]));
    assert!(!s.takes(&[PEER; 4], &[1, 0xab]));
    assert!(s.takes(&[PEER; 4], &[2, 0xab]));
    assert!(s.has_applied(&[1, 0xab]));
}
