use vstd::prelude::*;

use crate::ledger::Board;
use crate::messages::{copy_bytes, copy_label, same_bytes, BusEvent, NetworkMessage, Players};
use crate::session::{run, Effect, GameState, Role, SessionView};

verus! {

/// Index of the latest event of `history` not written by `me`.
pub open spec fn last_foreign(history: Seq<BusEvent>, me: Seq<u8>) -> Option<int>
    decreases history.len(),
{
    if history.len() == 0 {
        None
    } else if history.last().author@ != me {
        Some(history.len() - 1)
    } else {
        last_foreign(history.drop_last(), me)
    }
}

/// The role that a topic's history gives: host where nobody else has written,
/// guest where the latest foreign event opens a game, spectator otherwise,
/// an undecodable payload included.
pub open spec fn resolved_role(history: Seq<BusEvent>, me: Seq<u8>) -> Role {
    match last_foreign(history, me) {
        None => Role::Host,
        Some(i) => match history[i].message {
            Some(NetworkMessage::NewGame(_)) => Role::Guest,
            _ => Role::Spectator,
        },
    }
}

/// The outcome of the rendezvous: the local role, the peer's label where the
/// role is guest, and the control message to publish, if any.
pub struct Rendezvous {
    pub role: Role,
    pub peer_label: Option<String>,
    pub announce: Option<NetworkMessage>,
}

/// What `resolve` promises of `r` for `history`, the local key `me` and the
/// local label `label`.
pub open spec fn resolves_to(
    r: Rendezvous,
    history: Seq<BusEvent>,
    me: Seq<u8>,
    label: Option<String>,
) -> bool {
    &&& r.role == resolved_role(history, me)
    &&& match last_foreign(history, me) {
        None => {
            &&& r.peer_label is None
            &&& r.announce == Some(NetworkMessage::NewGame(label))
        },
        Some(i) => match history[i].message {
            Some(NetworkMessage::NewGame(host)) => {
                &&& r.peer_label == host
                &&& r.announce matches Some(NetworkMessage::JoinGame(p))
                &&& p.p1_name == host
                &&& p.p2_name == label
                &&& p.p1_pubkey@ == history[i].author@
                &&& p.p2_pubkey@ == me
            },
            _ => {
                &&& r.peer_label is None
                &&& r.announce is None
            },
        },
    }
}

/// Finds the latest event of `history` not written by `me`.
fn find_last_foreign(history: &Vec<BusEvent>, me: &[u8]) -> (r: Option<usize>)
    ensures
        r is None <==> last_foreign(history@, me@) is None,
        r matches Some(i) ==> i < history@.len() && last_foreign(history@, me@) == Some(i as int),
{
    let mut n: usize = history.len();
    assert(history@.take(n as int) == history@);
    while n > 0
        invariant
            n <= history@.len(),
            last_foreign(history@, me@) == last_foreign(history@.take(n as int), me@),
        decreases n,
    {
        let ghost prefix = history@.take(n as int);
        assert(prefix.drop_last() == history@.take(n - 1));
        assert(prefix.last() == history@[n - 1]);
        if !same_bytes(history[n - 1].author.as_slice(), me) {
            return Some(n - 1);
        }
        n -= 1;
    }
    None
}

/// Decides the local role from a topic's history, in the order the events were
/// published, and builds the control message to publish: `NewGame` with the
/// local label as host, `JoinGame` as guest, nothing as spectator. Only the
/// latest event of another author is consulted.
pub fn resolve(history: &Vec<BusEvent>, me: &Vec<u8>, label: &Option<String>) -> (r: Rendezvous)
    ensures
        resolves_to(r, history@, me@, *label),
{
    match find_last_foreign(history, me.as_slice()) {
        None => {
            let r = Rendezvous {
                role: Role::Host,
                peer_label: None,
                announce: Some(NetworkMessage::NewGame(copy_label(label))),
            };
            r
        },
        Some(i) => match &history[i].message {
            Some(NetworkMessage::NewGame(host)) => {
                let players = Players::new(
                    copy_label(host),
                    copy_label(label),
                    copy_bytes(history[i].author.as_slice()),
                    copy_bytes(me.as_slice()),
                );
                let r = Rendezvous {
                    role: Role::Guest,
                    peer_label: copy_label(host),
                    announce: Some(NetworkMessage::JoinGame(players)),
                };
                r
            },
            _ => {
                let r = Rendezvous { role: Role::Spectator, peer_label: None, announce: None };
                r
            },
        },
    }
}

/// The session after taking the rendezvous role `role`: a host waits for a
/// guest, a guest and a spectator start at once. A started session keeps its
/// role.
pub open spec fn adopt(s: SessionView, role: Role, peer_label: Option<String>) -> SessionView {
    if s.started {
        s
    } else {
        match role {
            Role::Host => SessionView { role: Role::Host, ..s },
            Role::Guest => s.assign(Role::Guest, peer_label),
            Role::Spectator => s.assign(Role::Spectator, None),
            Role::Unassigned => s,
        }
    }
}

/// The effects of adopting `role` in session `s`.
pub open spec fn adopt_effects(s: SessionView, role: Role) -> Seq<Effect> {
    if s.started || role == Role::Unassigned {
        Seq::empty()
    } else {
        seq![Effect::RoleAssigned(role)]
    }
}

impl GameState {
    /// Takes the role that the rendezvous settled, where the session has not
    /// started yet.
    pub fn adopt(&mut self, rendezvous: &Rendezvous, effects: &mut Vec<Effect>)
        ensures
            final(self)@ == adopt(old(self)@, rendezvous.role, rendezvous.peer_label),
            final(effects)@ == old(effects)@ + adopt_effects(old(self)@, rendezvous.role),
    {
        if self.started {
            assert(effects@ =~= old(effects)@ + Seq::<Effect>::empty());
            return;
        }
        match rendezvous.role {
            Role::Host => {
                self.role = Role::Host;
            },
            Role::Guest => {
                self.role = Role::Guest;
                self.peer_label = copy_label(&rendezvous.peer_label);
                self.started = true;
            },
            Role::Spectator => {
                self.role = Role::Spectator;
                self.peer_label = None;
                self.started = true;
            },
            Role::Unassigned => {
                assert(effects@ =~= old(effects)@ + Seq::<Effect>::empty());
                return;
            },
        }
        effects.push(Effect::RoleAssigned(rendezvous.role));
        assert(effects@ =~= old(effects)@ + seq![Effect::RoleAssigned(rendezvous.role)]);
    }

    /// Enters the game from the topic's history: resolves the role, adopts it,
    /// then replays the whole history into the session and the board. Returns
    /// the control message to publish, if any, and the effects asked for.
    pub fn enter(&mut self, board: &mut Board, history: &Vec<BusEvent>) -> (r: (
        Option<NetworkMessage>,
        Vec<Effect>,
    ))
        requires
            old(board)@.wf(),
        ensures
            final(board)@.wf(),
            ({
                let role = resolved_role(history@, old(self)@.identity);
                let (s, b, e) = run(
                    adopt(old(self)@, role, peer_label_of(history@, old(self)@.identity)),
                    old(board)@,
                    history@,
                );
                &&& final(self)@ == s
                &&& final(board)@ == b
                &&& r.1@ == adopt_effects(old(self)@, role) + e
            }),
            ({
                let me = old(self)@.identity;
                let rv = Rendezvous {
                    role: resolved_role(history@, me),
                    peer_label: peer_label_of(history@, me),
                    announce: r.0,
                };
                resolves_to(rv, history@, me, old(self)@.local_label)
            }),
    {
        let rendezvous = resolve(history, &self.identity, &self.local_label);
        let mut effects: Vec<Effect> = Vec::new();
        self.adopt(&rendezvous, &mut effects);
        let mut replayed = self.handle_events(board, history);
        effects.append(&mut replayed);
        (rendezvous.announce, effects)
    }
}

/// The peer label that a topic's history gives: the host's label where the
/// latest foreign event opens a game.
pub open spec fn peer_label_of(history: Seq<BusEvent>, me: Seq<u8>) -> Option<String> {
    match last_foreign(history, me) {
        Some(i) => match history[i].message {
            Some(NetworkMessage::NewGame(host)) => host,
            _ => None,
        },
        None => None,
    }
}

/// Role resolution: an empty history makes the local client host; a history
/// whose latest event is another client's `NewGame` makes it guest, with that
/// game's label as the peer's; a latest foreign event of any other kind, or
/// one that did not decode, makes it spectator. The client's own events never
/// decide.
pub proof fn lemma_role_resolution(history: Seq<BusEvent>, me: Seq<u8>, own: BusEvent)
    requires
        own.author@ == me,
    ensures
        history.len() == 0 ==> resolved_role(history, me) == Role::Host,
        history.len() > 0 && history.last().author@ != me ==> match history.last().message {
            Some(NetworkMessage::NewGame(label)) => resolved_role(history, me) == Role::Guest
                && peer_label_of(history, me) == label,
            _ => resolved_role(history, me) == Role::Spectator,
        },
        resolved_role(history.push(own), me) == resolved_role(history, me),
        peer_label_of(history.push(own), me) == peer_label_of(history, me),
{
    assert(history.push(own).drop_last() == history);
    lemma_last_foreign_in_range(history, me);
    if let Some(i) = last_foreign(history, me) {
        assert(history.push(own)[i] == history[i]);
    }
}

proof fn lemma_last_foreign_in_range(history: Seq<BusEvent>, me: Seq<u8>)
    ensures
        last_foreign(history, me) matches Some(i) ==> 0 <= i < history.len() && history[i].author@ != me,
    decreases history.len(),
{
    if history.len() > 0 {
        let prev = history.drop_last();
        lemma_last_foreign_in_range(prev, me);
        if let Some(i) = last_foreign(prev, me) {
            assert(prev[i] == history[i]);
        }
    }
}

} // verus!
