use vstd::prelude::*;

use crate::ledger::{
    column_count, is_cell_taken, is_ledger, lemma_column_count_bounded, lemma_columns_fill_from_bottom,
    lemma_drop_keeps_ledger, LedgerView, COLUMNS, ROWS,
};
use crate::messages::{BusEvent, NetworkMessage};
use crate::session::{apply_message, run, step, Effect, Role, SessionView};

verus! {

/// A control message changes neither the identity nor the applied event ids.
proof fn lemma_message_keeps_record(s: SessionView, b: LedgerView, m: NetworkMessage)
    ensures
        apply_message(s, b, m).0.identity == s.identity,
        apply_message(s, b, m).0.applied == s.applied,
{
}

proof fn lemma_push_keeps_contains(xs: Seq<Seq<u8>>, y: Seq<u8>, x: Seq<u8>)
    requires
        xs.contains(x),
    ensures
        xs.push(y).contains(x),
{
    let i = choose|i: int| 0 <= i < xs.len() && xs[i] == x;
    assert(xs.push(y)[i] == x);
}

/// One event keeps the identity, keeps every applied id, and leaves the id of
/// an event from another author recorded.
proof fn lemma_step_records(s: SessionView, b: LedgerView, ev: BusEvent)
    ensures
        step(s, b, ev).0.identity == s.identity,
        forall|x: Seq<u8>| s.applied.contains(x) ==> #[trigger] step(s, b, ev).0.applied.contains(x),
        ev.author@ != s.identity ==> step(s, b, ev).0.applied.contains(ev.id@),
{
    if s.takes(ev) {
        let r = s.record(ev.id@);
        match ev.message {
            Some(m) => lemma_message_keeps_record(r, b, m),
            None => {},
        }
        assert forall|x: Seq<u8>| s.applied.contains(x) implies #[trigger] r.applied.contains(x) by {
            lemma_push_keeps_contains(s.applied, ev.id@, x);
        }
        assert(r.applied[s.applied.len() as int] == ev.id@);
    }
}

/// After a run, every event of another author in it has its id recorded.
proof fn lemma_run_records(s: SessionView, b: LedgerView, evs: Seq<BusEvent>)
    ensures
        run(s, b, evs).0.identity == s.identity,
        forall|x: Seq<u8>| s.applied.contains(x) ==> #[trigger] run(s, b, evs).0.applied.contains(x),
        forall|i: int|
            0 <= i < evs.len() && (#[trigger] evs[i]).author@ != s.identity ==> run(
                s,
                b,
                evs,
            ).0.applied.contains(evs[i].id@),
    decreases evs.len(),
{
    if evs.len() > 0 {
        let prev = evs.drop_last();
        lemma_run_records(s, b, prev);
        let (s1, b1, _) = run(s, b, prev);
        lemma_step_records(s1, b1, evs.last());
        assert forall|i: int|
            0 <= i < evs.len() && (#[trigger] evs[i]).author@ != s.identity implies run(
                s,
                b,
                evs,
            ).0.applied.contains(evs[i].id@) by {
            if i < evs.len() - 1 {
                assert(prev[i] == evs[i]);
            }
        }
    }
}

/// A run of events none of which is taken changes nothing.
proof fn lemma_run_of_untaken(s: SessionView, b: LedgerView, evs: Seq<BusEvent>)
    requires
        forall|i: int| 0 <= i < evs.len() ==> !s.takes(#[trigger] evs[i]),
    ensures
        run(s, b, evs) == (s, b, Seq::<Effect>::empty()),
    decreases evs.len(),
{
    if evs.len() > 0 {
        let prev = evs.drop_last();
        assert forall|i: int| 0 <= i < prev.len() implies !s.takes(#[trigger] prev[i]) by {
            assert(prev[i] == evs[i]);
        }
        lemma_run_of_untaken(s, b, prev);
        assert(!s.takes(evs[evs.len() - 1]));
        assert(Seq::<Effect>::empty() + Seq::<Effect>::empty() =~= Seq::<Effect>::empty());
    }
}

/// Redelivery is harmless: applying a batch of events a second time leaves the
/// session and the board as the first pass left them, and asks for nothing.
pub proof fn lemma_redelivery_is_idempotent(s: SessionView, b: LedgerView, evs: Seq<BusEvent>)
    ensures
        ({
            let (s1, b1, _) = run(s, b, evs);
            run(s1, b1, evs) == (s1, b1, Seq::<Effect>::empty())
        }),
{
    lemma_run_records(s, b, evs);
    let (s1, b1, _) = run(s, b, evs);
    assert forall|i: int| 0 <= i < evs.len() implies !s1.takes(#[trigger] evs[i]) by {
        if evs[i].author@ != s.identity {
            assert(s1.applied.contains(evs[i].id@));
        }
    }
    lemma_run_of_untaken(s1, b1, evs);
}

/// A control message keeps the board a valid ledger.
pub proof fn lemma_message_keeps_ledger(s: SessionView, b: LedgerView, m: NetworkMessage)
    requires
        b.wf(),
    ensures
        apply_message(s, b, m).1.wf(),
{
    match m {
        NetworkMessage::Input(column) => {
            if b.accepts(column) {
                lemma_drop_keeps_ledger(b, column);
            }
        },
        NetworkMessage::Replay => {
            assert(is_ledger(Seq::empty()));
        },
        _ => {},
    }
}

/// Whatever events arrive, in whatever order, the board stays a valid ledger
/// after each of them: moves fill each column from the bottom up, in turn.
pub proof fn lemma_run_keeps_ledger(s: SessionView, b: LedgerView, evs: Seq<BusEvent>)
    requires
        b.wf(),
    ensures
        run(s, b, evs).1.wf(),
    decreases evs.len(),
{
    if evs.len() > 0 {
        lemma_run_keeps_ledger(s, b, evs.drop_last());
        let (s1, b1, _) = run(s, b, evs.drop_last());
        if s1.takes(evs.last()) {
            match evs.last().message {
                Some(m) => lemma_message_keeps_ledger(s1.record(evs.last().id@), b1, m),
                None => {},
            }
        }
    }
}

/// A replay empties the board and clears the role and the start, and keeps the
/// topic and the identity.
pub proof fn lemma_replay_resets(s: SessionView, b: LedgerView)
    ensures
        ({
            let (s1, b1, e) = apply_message(s, b, NetworkMessage::Replay);
            &&& b1.moves.len() == 0
            &&& b1 == LedgerView::empty()
            &&& !s1.started
            &&& s1.role == Role::Unassigned
            &&& s1.topic == s.topic
            &&& s1.identity == s.identity
            &&& e == seq![Effect::Replayed]
        }),
{
}

/// An `Input` for a column that already holds `ROWS` moves is dropped: board,
/// session and effects stay as they were.
pub proof fn lemma_full_column_is_dropped(s: SessionView, b: LedgerView, column: usize)
    requires
        column_count(b.moves, column as int) >= ROWS,
    ensures
        apply_message(s, b, NetworkMessage::Input(column)) == (s, b, Seq::<Effect>::empty()),
{
}

/// Column fill holds after every run of events: starting from a valid board,
/// whatever arrives, each column's occupied rows are exactly `0 .. k` for its
/// move count `k`, and no column holds more than `ROWS` moves.
pub proof fn lemma_columns_stay_filled(s: SessionView, b: LedgerView, evs: Seq<BusEvent>)
    requires
        b.wf(),
    ensures
        ({
            let moves = run(s, b, evs).1.moves;
            forall|c: int, r: int|
                #![trigger column_count(moves, c), is_cell_taken(moves, c, r)]
                0 <= c < COLUMNS ==> (is_cell_taken(moves, c, r) <==> 0 <= r < column_count(
                    moves,
                    c,
                ))
        }),
        forall|c: int| #[trigger] column_count(run(s, b, evs).1.moves, c) <= ROWS,
{
    lemma_run_keeps_ledger(s, b, evs);
    let moves = run(s, b, evs).1.moves;
    lemma_columns_fill_from_bottom(moves);
    assert forall|c: int| #[trigger] column_count(moves, c) <= ROWS by {
        lemma_column_count_bounded(moves, c);
    }
}

} // verus!
