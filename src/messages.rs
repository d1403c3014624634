use vstd::prelude::*;

use crate::ledger::PlayerMove;

verus! {

/// The two players of a game: their display labels and their public keys as
/// raw bytes.
pub struct Players {
    pub p1_name: Option<String>,
    pub p2_name: Option<String>,
    pub p1_pubkey: Vec<u8>,
    pub p2_pubkey: Vec<u8>,
}

impl Players {
    pub fn new(
        p1_name: Option<String>,
        p2_name: Option<String>,
        p1_pubkey: Vec<u8>,
        p2_pubkey: Vec<u8>,
    ) -> (r: Self)
        ensures
            r.p1_name == p1_name,
            r.p2_name == p2_name,
            r.p1_pubkey@ == p1_pubkey@,
            r.p2_pubkey@ == p2_pubkey@,
    {
        Players { p1_name, p2_name, p1_pubkey, p2_pubkey }
    }
}

/// A control message carried as the payload of a bus event.
pub enum NetworkMessage {
    /// A host opens a game, with its label.
    NewGame(Option<String>),
    /// A guest answers a `NewGame`.
    JoinGame(Players),
    /// Both players are known.
    StartGame(Players),
    /// The player to move drops a coin into a column.
    Input(usize),
    /// The game starts over.
    Replay,
    /// The full move list, for an observer who arrives mid-game.
    Spectate(Vec<PlayerMove>),
    /// Looking for a game.
    Lfg,
}

/// One event of a topic as the bus delivers it: its id, its author's public
/// key, and its payload, `None` where the payload did not decode.
pub struct BusEvent {
    pub id: Vec<u8>,
    pub author: Vec<u8>,
    pub message: Option<NetworkMessage>,
}

/// Whether two byte strings are equal.
pub fn same_bytes(a: &[u8], b: &[u8]) -> (r: bool)
    ensures
        r == (a@ == b@),
{
    if a.len() != b.len() {
        return false;
    }
    let mut i: usize = 0;
    while i < a.len()
        invariant
            i <= a@.len(),
            a@.len() == b@.len(),
            forall|k: int| 0 <= k < i ==> a@[k] == b@[k],
        decreases a@.len() - i,
    {
        if a[i] != b[i] {
            return false;
        }
        i += 1;
    }
    assert(a@ =~= b@);
    true
}

/// A copy of a byte string.
pub fn copy_bytes(a: &[u8]) -> (r: Vec<u8>)
    ensures
        r@ == a@,
{
    let mut r: Vec<u8> = Vec::new();
    let mut i: usize = 0;
    while i < a.len()
        invariant
            i <= a@.len(),
            r@ == a@.take(i as int),
        decreases a@.len() - i,
    {
        r.push(a[i]);
        i += 1;
        assert(r@ =~= a@.take(i as int));
    }
    assert(a@.take(i as int) =~= a@);
    r
}

/// A copy of an optional label.
pub fn copy_label(label: &Option<String>) -> (r: Option<String>)
    ensures
        r == *label,
{
    match label {
        Some(s) => Some(s.clone()),
        None => None,
    }
}

} // verus!
