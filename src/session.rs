use vstd::prelude::*;

use crate::ledger::{
    is_ledger, fits, lemma_drop_keeps_ledger, lemma_ledger_prefix, Board, LedgerView, PlayerMove,
    COLUMNS, ROWS,
};
use crate::messages::{copy_bytes, copy_label, same_bytes, BusEvent, NetworkMessage};

verus! {

/// Where the local client stands in a game.
#[derive(Debug, Clone, Copy, PartialEq, Eq, Structural)]
pub enum Role {
    Unassigned,
    /// Opened the game; moves first as player 1.
    Host,
    /// Answered the host; moves second as player 2.
    Guest,
    /// Watches only.
    Spectator,
}

impl Role {
    /// The player number a role moves as; 0 for a role that does not move.
    pub open spec fn player(self) -> usize {
        match self {
            Role::Host => 1,
            Role::Guest => 2,
            _ => 0,
        }
    }

    pub fn player_number(&self) -> (r: usize)
        ensures
            r == self.player(),
    {
        match self {
            Role::Host => 1,
            Role::Guest => 2,
            _ => 0,
        }
    }
}

/// A side effect that the dispatcher asks of the presentation layer.
#[derive(Debug, Clone, Copy, PartialEq, Eq, Structural)]
pub enum Effect {
    /// A coin was accepted into the ledger.
    MoveAccepted(PlayerMove),
    /// The board was cleared.
    Replayed,
    /// The local role was settled.
    RoleAssigned(Role),
    /// The game ended: the winner, or `None` for a draw.
    GameOver(Option<usize>),
}

/// The board is decided: somebody won or it is a draw.
pub open spec fn is_over(b: LedgerView) -> bool {
    b.winner is Some || b.draw
}

/// What a drop into `column` asks of the presentation layer.
pub open spec fn drop_effects(b: LedgerView, column: usize) -> Seq<Effect> {
    if !b.accepts(column) {
        Seq::empty()
    } else if !is_over(b) && is_over(b.dropped(column)) {
        seq![Effect::MoveAccepted(b.next_move(column)), Effect::GameOver(b.dropped(column).winner)]
    } else {
        seq![Effect::MoveAccepted(b.next_move(column))]
    }
}

/// The effects of playing `moves` one by one on an empty board.
pub open spec fn load_effects(moves: Seq<PlayerMove>) -> Seq<Effect>
    decreases moves.len(),
{
    if moves.len() == 0 {
        Seq::empty()
    } else {
        load_effects(moves.drop_last()) + drop_effects(
            LedgerView::of(moves.drop_last(), false),
            moves.last().column,
        )
    }
}

/// What a `GameState` holds, as mathematical values.
pub struct SessionView {
    pub started: bool,
    pub role: Role,
    pub identity: Seq<u8>,
    pub topic: Seq<char>,
    pub local_label: Option<String>,
    pub peer_label: Option<String>,
    pub applied: Seq<Seq<u8>>,
}

impl SessionView {
    /// The session with its role settled and the game started.
    pub open spec fn assign(self, role: Role, peer_label: Option<String>) -> SessionView {
        SessionView { started: true, role, peer_label, ..self }
    }

    /// The session after a replay: role, peer and start cleared; identity,
    /// topic, local label and the applied event ids kept.
    pub open spec fn reset(self) -> SessionView {
        SessionView { started: false, role: Role::Unassigned, peer_label: None, ..self }
    }

    /// The session with event `id` recorded as applied.
    pub open spec fn record(self, id: Seq<u8>) -> SessionView {
        SessionView { applied: self.applied.push(id), ..self }
    }

    /// An event is taken only from another author, and only once.
    pub open spec fn takes(self, ev: BusEvent) -> bool {
        ev.author@ != self.identity && !self.applied.contains(ev.id@)
    }
}

/// Session and board after a decoded control message, and the effects asked for.
pub open spec fn apply_message(s: SessionView, b: LedgerView, m: NetworkMessage) -> (
    SessionView,
    LedgerView,
    Seq<Effect>,
) {
    match m {
        NetworkMessage::Input(column) => {
            if s.started {
                (s, b.dropped(column), drop_effects(b, column))
            } else {
                (s, b, Seq::empty())
            }
        },
        NetworkMessage::Replay => (s.reset(), LedgerView::empty(), seq![Effect::Replayed]),
        NetworkMessage::NewGame(label) => {
            if s.started {
                (s, b, Seq::empty())
            } else {
                (s.assign(Role::Guest, label), b, seq![Effect::RoleAssigned(Role::Guest)])
            }
        },
        NetworkMessage::JoinGame(players) => {
            if s.started {
                (s, b, Seq::empty())
            } else {
                (s.assign(Role::Host, players.p2_name), b, seq![Effect::RoleAssigned(Role::Host)])
            }
        },
        NetworkMessage::StartGame(_) => {
            if s.started {
                (s, b, Seq::empty())
            } else {
                (s.assign(Role::Spectator, None), b, seq![Effect::RoleAssigned(Role::Spectator)])
            }
        },
        NetworkMessage::Spectate(moves) => {
            if !s.started && is_ledger(moves@) {
                (
                    s.assign(Role::Spectator, None),
                    LedgerView::of(moves@, false),
                    seq![Effect::Replayed] + load_effects(moves@) + seq![
                        Effect::RoleAssigned(Role::Spectator),
                    ],
                )
            } else {
                (s, b, Seq::empty())
            }
        },
        NetworkMessage::Lfg => (s, b, Seq::empty()),
    }
}

/// Session and board after one bus event, and the effects asked for.
pub open spec fn step(s: SessionView, b: LedgerView, ev: BusEvent) -> (
    SessionView,
    LedgerView,
    Seq<Effect>,
) {
    if !s.takes(ev) {
        (s, b, Seq::empty())
    } else {
        match ev.message {
            Some(m) => apply_message(s.record(ev.id@), b, m),
            None => (s.record(ev.id@), b, Seq::empty()),
        }
    }
}

/// Session and board after the events `evs` in order, and all effects asked for.
pub open spec fn run(s: SessionView, b: LedgerView, evs: Seq<BusEvent>) -> (
    SessionView,
    LedgerView,
    Seq<Effect>,
)
    decreases evs.len(),
{
    if evs.len() == 0 {
        (s, b, Seq::empty())
    } else {
        let (s1, b1, e1) = run(s, b, evs.drop_last());
        let (s2, b2, e2) = step(s1, b1, evs.last());
        (s2, b2, e1 + e2)
    }
}

/// The session record of one client in one game.
pub struct GameState {
    pub started: bool,
    pub role: Role,
    /// The local public key, as raw bytes.
    pub identity: Vec<u8>,
    /// The tag that scopes this game's traffic on the bus.
    pub topic: String,
    pub local_label: Option<String>,
    pub peer_label: Option<String>,
    /// Ids of the events applied so far.
    pub applied: Vec<Vec<u8>>,
}

impl View for GameState {
    type V = SessionView;

    open spec fn view(&self) -> SessionView {
        SessionView {
            started: self.started,
            role: self.role,
            identity: self.identity@,
            topic: self.topic@,
            local_label: self.local_label,
            peer_label: self.peer_label,
            applied: self.applied@.map_values(|id: Vec<u8>| id@),
        }
    }
}

/// Drops into `column` and appends what that asks of the presentation layer.
fn drop_and_report(board: &mut Board, column: usize, effects: &mut Vec<Effect>)
    requires
        old(board)@.wf(),
    ensures
        final(board)@ == old(board)@.dropped(column),
        final(board)@.wf(),
        final(effects)@ == old(effects)@ + drop_effects(old(board)@, column),
{
    let was_over = board.winner.is_some() || board.draw;
    match board.drop_coin(column) {
        Some(m) => {
            effects.push(Effect::MoveAccepted(m));
            if !was_over && (board.winner.is_some() || board.draw) {
                effects.push(Effect::GameOver(board.winner));
            }
        },
        None => {},
    }
    proof {
        let e = drop_effects(old(board)@, column);
        assert(final(effects)@ =~= old(effects)@ + e);
    }
}

/// Plays `moves` on a fresh board, checking that each is the move the rules
/// make there; `None` where one is not.
fn load_moves(moves: &Vec<PlayerMove>) -> (r: Option<(Board, Vec<Effect>)>)
    ensures
        r is Some <==> is_ledger(moves@),
        r matches Some((b, e)) ==> b@ == LedgerView::of(moves@, false) && b@.wf() && e@
            == load_effects(moves@),
{
    let mut board = Board::new();
    let mut effects: Vec<Effect> = Vec::new();
    let mut i: usize = 0;
    assert(moves@.take(0) == Seq::<PlayerMove>::empty());
    while i < moves.len()
        invariant
            i <= moves@.len(),
            is_ledger(moves@.take(i as int)),
            board@ == LedgerView::of(moves@.take(i as int), false),
            board@.wf(),
            effects@ == load_effects(moves@.take(i as int)),
        decreases moves@.len() - i,
    {
        let m = moves[i];
        let ghost prefix = moves@.take(i as int);
        assert(moves@.take(i + 1).drop_last() == prefix);
        assert(moves@.take(i + 1).take(i as int) == prefix);
        if m.column >= COLUMNS {
            proof { assert(!fits(moves@, i as int)); }
            return None;
        }
        let height = board.column_height(m.column);
        if height >= ROWS || m.row != height || m.player != board.player_turn {
            proof {
                assert(moves@.take(i as int) == prefix);
                assert(!fits(moves@, i as int));
            }
            return None;
        }
        proof {
            assert(board@.next_move(m.column) == m);
            assert(moves@.take(i + 1) == prefix.push(m));
            assert forall|k: int| 0 <= k < i + 1 implies #[trigger] fits(moves@.take(i + 1), k) by {
                if k < i {
                    assert(fits(prefix, k));
                    assert(moves@.take(i + 1).take(k) == prefix.take(k));
                } else {
                    assert(moves@.take(i + 1).take(k) == prefix);
                }
            }
        }
        drop_and_report(&mut board, m.column, &mut effects);
        i += 1;
    }
    assert(moves@.take(i as int) == moves@);
    proof {
        assert forall|k: int| 0 <= k < moves@.len() implies #[trigger] fits(moves@, k) by {
            assert(fits(moves@.take(i as int), k));
        }
    }
    Some((board, effects))
}

impl GameState {
    /// A fresh session: no role, not started, nothing applied.
    pub fn new(identity: Vec<u8>, topic: String, local_label: Option<String>) -> (r: Self)
        ensures
            r@ == (SessionView {
                started: false,
                role: Role::Unassigned,
                identity: identity@,
                topic: topic@,
                local_label,
                peer_label: None,
                applied: Seq::empty(),
            }),
    {
        let r = GameState {
            started: false,
            role: Role::Unassigned,
            identity,
            topic,
            local_label,
            peer_label: None,
            applied: Vec::new(),
        };
        assert(r@.applied =~= Seq::<Seq<u8>>::empty());
        r
    }

    /// Whether the event with id `id` was applied already.
    pub fn has_applied(&self, id: &[u8]) -> (r: bool)
        ensures
            r == self@.applied.contains(id@),
    {
        let mut i: usize = 0;
        while i < self.applied.len()
            invariant
                i <= self.applied@.len(),
                forall|k: int| 0 <= k < i ==> #[trigger] self.applied@[k]@ != id@,
            decreases self.applied@.len() - i,
        {
            if same_bytes(self.applied[i].as_slice(), id) {
                assert(self@.applied[i as int] == id@);
                return true;
            }
            i += 1;
        }
        assert(!self@.applied.contains(id@)) by {
            if self@.applied.contains(id@) {
                let k = choose|k: int| 0 <= k < self@.applied.len() && self@.applied[k] == id@;
                assert(self.applied@[k]@ == id@);
            }
        }
        false
    }

    /// Whether an event from `author` with id `id` is to be applied: it comes
    /// from another client and was not applied before.
    pub fn takes(&self, author: &[u8], id: &[u8]) -> (r: bool)
        ensures
            r == (author@ != self@.identity && !self@.applied.contains(id@)),
    {
        !same_bytes(author, self.identity.as_slice()) && !self.has_applied(id)
    }

    fn record(&mut self, id: &[u8])
        ensures
            final(self)@ == old(self)@.record(id@),
    {
        let copy = copy_bytes(id);
        self.applied.push(copy);
        assert(final(self)@.applied =~= old(self)@.applied.push(id@));
    }

    /// Applies one decoded control message to the session and the board, and
    /// appends the effects it asks for.
    pub fn handle_message(&mut self, board: &mut Board, message: &NetworkMessage, effects: &mut Vec<Effect>)
        requires
            old(board)@.wf(),
        ensures
            final(board)@.wf(),
            ({
                let (s, b, e) = apply_message(old(self)@, old(board)@, *message);
                &&& final(self)@ == s
                &&& final(board)@ == b
                &&& final(effects)@ == old(effects)@ + e
            }),
    {
        match message {
            NetworkMessage::Input(column) => {
                if self.started {
                    drop_and_report(board, *column, effects);
                } else {
                    assert(effects@ =~= old(effects)@ + Seq::<Effect>::empty());
                }
            },
            NetworkMessage::Replay => {
                *board = Board::new();
                self.started = false;
                self.role = Role::Unassigned;
                self.peer_label = None;
                effects.push(Effect::Replayed);
                assert(effects@ =~= old(effects)@ + seq![Effect::Replayed]);
            },
            NetworkMessage::NewGame(label) => {
                if !self.started {
                    self.peer_label = copy_label(label);
                    self.role = Role::Guest;
                    self.started = true;
                    effects.push(Effect::RoleAssigned(Role::Guest));
                    assert(effects@ =~= old(effects)@ + seq![Effect::RoleAssigned(Role::Guest)]);
                } else {
                    assert(effects@ =~= old(effects)@ + Seq::<Effect>::empty());
                }
            },
            NetworkMessage::JoinGame(players) => {
                if !self.started {
                    self.peer_label = copy_label(&players.p2_name);
                    self.role = Role::Host;
                    self.started = true;
                    effects.push(Effect::RoleAssigned(Role::Host));
                    assert(effects@ =~= old(effects)@ + seq![Effect::RoleAssigned(Role::Host)]);
                } else {
                    assert(effects@ =~= old(effects)@ + Seq::<Effect>::empty());
                }
            },
            NetworkMessage::StartGame(_) => {
                if !self.started {
                    self.peer_label = None;
                    self.role = Role::Spectator;
                    self.started = true;
                    effects.push(Effect::RoleAssigned(Role::Spectator));
                    assert(effects@ =~= old(effects)@ + seq![Effect::RoleAssigned(Role::Spectator)]);
                } else {
                    assert(effects@ =~= old(effects)@ + Seq::<Effect>::empty());
                }
            },
            NetworkMessage::Spectate(moves) => {
                let loaded = if self.started {
                    None
                } else {
                    load_moves(moves)
                };
                match loaded {
                    Some((fresh, mut replayed)) => {
                        *board = fresh;
                        self.peer_label = None;
                        self.role = Role::Spectator;
                        self.started = true;
                        effects.push(Effect::Replayed);
                        effects.append(&mut replayed);
                        effects.push(Effect::RoleAssigned(Role::Spectator));
                        assert(effects@ =~= old(effects)@ + (seq![Effect::Replayed] + load_effects(
                            moves@,
                        ) + seq![Effect::RoleAssigned(Role::Spectator)]));
                    },
                    None => {
                        assert(effects@ =~= old(effects)@ + Seq::<Effect>::empty());
                    },
                }
            },
            NetworkMessage::Lfg => {
                assert(effects@ =~= old(effects)@ + Seq::<Effect>::empty());
            },
        }
    }

    /// Applies one bus event: skipped where it is the client's own or was
    /// applied before; otherwise recorded, then its message, if it decoded,
    /// is applied.
    pub fn handle_event(&mut self, board: &mut Board, event: &BusEvent, effects: &mut Vec<Effect>)
        requires
            old(board)@.wf(),
        ensures
            final(board)@.wf(),
            ({
                let (s, b, e) = step(old(self)@, old(board)@, *event);
                &&& final(self)@ == s
                &&& final(board)@ == b
                &&& final(effects)@ == old(effects)@ + e
            }),
    {
        if !self.takes(event.author.as_slice(), event.id.as_slice()) {
            assert(effects@ =~= old(effects)@ + Seq::<Effect>::empty());
            return;
        }
        self.record(event.id.as_slice());
        match &event.message {
            Some(message) => self.handle_message(board, message, effects),
            None => {
                assert(effects@ =~= old(effects)@ + Seq::<Effect>::empty());
            },
        }
    }

    /// Applies the events `events` in the order given, each to completion
    /// before the next, and returns the effects they ask for.
    pub fn handle_events(&mut self, board: &mut Board, events: &Vec<BusEvent>) -> (r: Vec<Effect>)
        requires
            old(board)@.wf(),
        ensures
            final(board)@.wf(),
            ({
                let (s, b, e) = run(old(self)@, old(board)@, events@);
                &&& final(self)@ == s
                &&& final(board)@ == b
                &&& r@ == e
            }),
    {
        let mut effects: Vec<Effect> = Vec::new();
        let mut i: usize = 0;
        assert(events@.take(0) == Seq::<BusEvent>::empty());
        while i < events.len()
            invariant
                i <= events@.len(),
                board@.wf(),
                ({
                    let (s, b, e) = run(old(self)@, old(board)@, events@.take(i as int));
                    &&& self@ == s
                    &&& board@ == b
                    &&& effects@ == e
                }),
            decreases events@.len() - i,
        {
            assert(events@.take(i + 1).drop_last() == events@.take(i as int));
            assert(events@.take(i + 1).last() == events@[i as int]);
            self.handle_event(board, &events[i], &mut effects);
            i += 1;
        }
        assert(events@.take(i as int) == events@);
        effects
    }
}

/// The local player may drop into `column` now: the game has started, the
/// local role moves, it is its turn, the game is not decided, no coin is still
/// falling, and the column has room.
pub open spec fn may_play(s: SessionView, b: LedgerView, column: usize) -> bool {
    &&& s.started
    &&& (s.role == Role::Host || s.role == Role::Guest)
    &&& b.player_turn == s.role.player()
    &&& !is_over(b)
    &&& !b.in_progress
    &&& b.accepts(column)
}

/// What the status line shows.
#[derive(Debug, Clone, Copy, PartialEq, Eq, Structural)]
pub enum Status {
    /// No opponent yet.
    WaitingForPlayer,
    YourTurn,
    OpponentsTurn,
    /// Watching; the player to move.
    Spectating(usize),
    Won,
    Lost,
    Drew,
    /// Watching a finished game; the winner.
    GameOver(usize),
}

/// The status of session `s` over board `b`.
pub open spec fn status_of(s: SessionView, b: LedgerView) -> Status {
    match b.winner {
        Some(w) => {
            if s.role == Role::Spectator {
                Status::GameOver(w)
            } else if w == s.role.player() {
                Status::Won
            } else {
                Status::Lost
            }
        },
        None => {
            if b.draw {
                Status::Drew
            } else if !s.started {
                Status::WaitingForPlayer
            } else if s.role == Role::Spectator {
                Status::Spectating(b.player_turn)
            } else if b.player_turn == s.role.player() {
                Status::YourTurn
            } else {
                Status::OpponentsTurn
            }
        },
    }
}

/// The opponent's key that an event reveals: its author, where it is another
/// client's `NewGame` or `JoinGame` and the local client plays.
pub open spec fn reveals_peer(s: SessionView, ev: BusEvent) -> bool {
    &&& ev.author@ != s.identity
    &&& s.role != Role::Spectator
    &&& (ev.message matches Some(NetworkMessage::NewGame(_)) || ev.message matches Some(
        NetworkMessage::JoinGame(_),
    ))
}

impl GameState {
    /// The local player drops into `column`. Where `may_play` holds, the move
    /// is applied to the board and the `Input` message to publish is returned
    /// with the effects asked for; otherwise nothing changes.
    pub fn send_input(&self, board: &mut Board, column: usize) -> (r: (Option<NetworkMessage>, Vec<Effect>))
        requires
            old(board)@.wf(),
        ensures
            final(board)@.wf(),
            may_play(self@, old(board)@, column) ==> {
                &&& final(board)@ == old(board)@.dropped(column)
                &&& r.0 == Some(NetworkMessage::Input(column))
                &&& r.1@ == drop_effects(old(board)@, column)
            },
            !may_play(self@, old(board)@, column) ==> {
                &&& final(board)@ == old(board)@
                &&& r.0 is None
                &&& r.1@ == Seq::<Effect>::empty()
            },
    {
        let mut effects: Vec<Effect> = Vec::new();
        let mine = self.role.player_number();
        let allowed = self.started && (self.role == Role::Host || self.role == Role::Guest)
            && board.player_turn == mine && board.winner.is_none() && !board.draw
            && !board.in_progress && column < COLUMNS && board.column_height(column) < ROWS;
        if !allowed {
            return (None, effects);
        }
        drop_and_report(board, column, &mut effects);
        assert(effects@ =~= drop_effects(old(board)@, column));
        (Some(NetworkMessage::Input(column)), effects)
    }

    /// What the status line shows for this session over `board`.
    pub fn status(&self, board: &Board) -> (r: Status)
        ensures
            r == status_of(self@, board@),
    {
        match board.winner {
            Some(w) => {
                if self.role == Role::Spectator {
                    Status::GameOver(w)
                } else if w == self.role.player_number() {
                    Status::Won
                } else {
                    Status::Lost
                }
            },
            None => {
                if board.draw {
                    Status::Drew
                } else if !self.started {
                    Status::WaitingForPlayer
                } else if self.role == Role::Spectator {
                    Status::Spectating(board.player_turn)
                } else if board.player_turn == self.role.player_number() {
                    Status::YourTurn
                } else {
                    Status::OpponentsTurn
                }
            },
        }
    }

    /// The key of the opponent that `event` reveals, to narrow the
    /// subscription to that author.
    pub fn peer_to_follow(&self, event: &BusEvent) -> (r: Option<Vec<u8>>)
        ensures
            reveals_peer(self@, *event) ==> (r matches Some(k) && k@ == event.author@),
            !reveals_peer(self@, *event) ==> r is None,
    {
        if same_bytes(event.author.as_slice(), self.identity.as_slice()) || self.role == Role::Spectator {
            return None;
        }
        match &event.message {
            Some(NetworkMessage::NewGame(_)) | Some(NetworkMessage::JoinGame(_)) => Some(
                copy_bytes(event.author.as_slice()),
            ),
            _ => None,
        }
    }
}

} // verus!
