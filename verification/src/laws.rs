use crate::records::PositionRecordView;
use crate::tracker::zobrist_of;
use crate::visitor::{init_view, run_spec, step, EventView, StateView};
use vstd::prelude::*;

verus! {

/// Number of end-of-game events in a stream: the number of games it closes.
pub open spec fn count_game_ends(events: Seq<EventView>) -> nat
    decreases events.len(),
{
    if events.len() == 0 {
        0
    } else {
        (if events[0] is GameEnd {
            1nat
        } else {
            0nat
        }) + count_game_ends(events.drop_first())
    }
}

/// Number of half-move events in a stream.
pub open spec fn count_moves(events: Seq<EventView>) -> nat
    decreases events.len(),
{
    if events.len() == 0 {
        0
    } else {
        (if events[0] is Move {
            1nat
        } else {
            0nat
        }) + count_moves(events.drop_first())
    }
}

/// A stream with G closed games and M half-moves leaves exactly G game
/// records and exactly M position-index records, whatever the starting state
/// already held.
pub proof fn lemma_record_counts(s: StateView, events: Seq<EventView>)
    ensures
        run_spec(s, events).games.len() == s.games.len() + count_game_ends(events),
        run_spec(s, events).positions.len() == s.positions.len() + count_moves(events),
    decreases events.len(),
{
    if events.len() > 0 {
        lemma_record_counts(step(s, events[0]), events.drop_first());
    }
}

/// Game-start and game-end events pair up properly from the given phase on,
/// and the stream ends outside a game.
pub open spec fn games_balanced_from(in_game: bool, events: Seq<EventView>) -> bool
    decreases events.len(),
{
    if events.len() == 0 {
        !in_game
    } else {
        match events[0] {
            EventView::GameStart => !in_game && games_balanced_from(true, events.drop_first()),
            EventView::GameEnd => in_game && games_balanced_from(false, events.drop_first()),
            _ => games_balanced_from(in_game, events.drop_first()),
        }
    }
}

/// A well-formed stream: a sequence of complete games.
pub open spec fn wf_stream(events: Seq<EventView>) -> bool {
    games_balanced_from(false, events)
}

/// The game identifiers already emitted are 1, 2, ... in encounter order, and
/// the counter stands one ahead of them exactly while a game is open.
pub open spec fn ids_inv(s: StateView, in_game: bool) -> bool {
    &&& forall|i: int| 0 <= i < s.games.len() ==> s.games[i].game_id == i + 1
    &&& s.current_id == s.games.len() + (if in_game {
        1int
    } else {
        0int
    })
}

proof fn lemma_ids_from(s: StateView, in_game: bool, events: Seq<EventView>)
    requires
        ids_inv(s, in_game),
        games_balanced_from(in_game, events),
    ensures
        ids_inv(run_spec(s, events), false),
    decreases events.len(),
{
    if events.len() > 0 {
        let rest = events.drop_first();
        match events[0] {
            EventView::GameStart => lemma_ids_from(step(s, events[0]), true, rest),
            EventView::GameEnd => lemma_ids_from(step(s, events[0]), false, rest),
            _ => lemma_ids_from(step(s, events[0]), in_game, rest),
        }
    }
}

/// Over a well-formed stream, a fresh visitor hands out the game identifiers
/// 1 up to the number of games, in encounter order, with no gap and no
/// repetition.
pub proof fn lemma_game_ids(events: Seq<EventView>)
    requires
        wf_stream(events),
    ensures
        run_spec(init_view(), events).games.len() == count_game_ends(events),
        forall|i: int|
            0 <= i < run_spec(init_view(), events).games.len() ==> run_spec(
                init_view(),
                events,
            ).games[i].game_id == i + 1,
{
    lemma_record_counts(init_view(), events);
    lemma_ids_from(init_view(), false, events);
}

/// How many of the given position-index records belong to a game.
pub open spec fn count_with_id(positions: Seq<PositionRecordView>, game_id: int) -> nat
    decreases positions.len(),
{
    if positions.len() == 0 {
        0
    } else {
        count_with_id(positions.drop_last(), game_id) + (if positions.last().game_id == game_id {
            1nat
        } else {
            0nat
        })
    }
}

proof fn lemma_count_absent(positions: Seq<PositionRecordView>, game_id: int)
    requires
        forall|j: int| 0 <= j < positions.len() ==> positions[j].game_id != game_id,
    ensures
        count_with_id(positions, game_id) == 0,
    decreases positions.len(),
{
    if positions.len() > 0 {
        lemma_count_absent(positions.drop_last(), game_id);
    }
}

/// Every emitted record belongs to a game no newer than the current one; the
/// ply counter stands one past the number of records of the current game; and
/// each record's move number is one more than the number of earlier records
/// of its game — so, per game, the move numbers read 1, 2, ... in emission
/// order, with no duplicate and no gap.
pub open spec fn numbering_inv(s: StateView) -> bool {
    &&& forall|j: int| 0 <= j < s.positions.len() ==> s.positions[j].game_id <= s.current_id
    &&& s.move_num == 1 + count_with_id(s.positions, s.current_id)
    &&& forall|j: int|
        0 <= j < s.positions.len() ==> s.positions[j].move_num == 1 + count_with_id(
            s.positions.take(j),
            s.positions[j].game_id,
        )
}

proof fn lemma_numbering_step(s: StateView, event: EventView)
    requires
        numbering_inv(s),
    ensures
        numbering_inv(step(s, event)),
{
    let s2 = step(s, event);
    match event {
        EventView::GameStart => {
            lemma_count_absent(s.positions, s.current_id + 1);
        },
        EventView::Move(san_plus) => {
            let rec = s2.positions.last();
            assert(s2.positions.drop_last() =~= s.positions);
            assert forall|j: int| 0 <= j < s2.positions.len() implies s2.positions[j].move_num == 1
                + count_with_id(s2.positions.take(j), s2.positions[j].game_id) by {
                assert(s2.positions.take(j) =~= s.positions.take(j));
                if j < s.positions.len() {
                    assert(s.positions[j].move_num == 1 + count_with_id(
                        s.positions.take(j),
                        s.positions[j].game_id,
                    ));
                } else {
                    assert(s.positions.take(j) =~= s.positions);
                }
            }
        },
        _ => {},
    }
}

proof fn lemma_numbering_from(s: StateView, events: Seq<EventView>)
    requires
        numbering_inv(s),
    ensures
        numbering_inv(run_spec(s, events)),
    decreases events.len(),
{
    if events.len() > 0 {
        lemma_numbering_step(s, events[0]);
        lemma_numbering_from(step(s, events[0]), events.drop_first());
    }
}

/// From a fresh visitor, each position-index record's move number is one more
/// than the number of earlier records of the same game: within one game the
/// move numbers form exactly the sequence 1..k, strictly increasing, where k
/// is that game's half-move count.
pub proof fn lemma_move_numbers(events: Seq<EventView>)
    ensures
        forall|j: int|
            0 <= j < run_spec(init_view(), events).positions.len() ==> run_spec(
                init_view(),
                events,
            ).positions[j].move_num == 1 + count_with_id(
                run_spec(init_view(), events).positions.take(j),
                run_spec(init_view(), events).positions[j].game_id,
            ),
{
    lemma_numbering_from(init_view(), events);
}

/// Moves applied to the board never outnumber the plies visited in the
/// current game, and every record emitted at ply 1 carries the fingerprint of
/// the canonical starting position.
pub open spec fn fingerprint_inv(s: StateView) -> bool {
    &&& s.applied.len() <= s.move_num - 1
    &&& forall|j: int|
        0 <= j < s.positions.len() && s.positions[j].move_num == 1 ==> s.positions[j].fingerprint
            == zobrist_of(Seq::empty())
}

proof fn lemma_fingerprint_from(s: StateView, events: Seq<EventView>)
    requires
        fingerprint_inv(s),
    ensures
        fingerprint_inv(run_spec(s, events)),
    decreases events.len(),
{
    if events.len() > 0 {
        match events[0] {
            EventView::Move(san_plus) => {
                if s.move_num == 1 {
                    assert(s.applied =~= Seq::<Seq<char>>::empty());
                }
            },
            _ => {},
        }
        lemma_fingerprint_from(step(s, events[0]), events.drop_first());
    }
}

/// From a fresh visitor, the fingerprint recorded for ply 1 of every game is
/// the fingerprint of the canonical starting position: it is computed before
/// any move of the game has been applied.
pub proof fn lemma_first_ply_fingerprint(events: Seq<EventView>)
    ensures
        forall|j: int|
            0 <= j < run_spec(init_view(), events).positions.len() && run_spec(
                init_view(),
                events,
            ).positions[j].move_num == 1 ==> run_spec(init_view(), events).positions[j].fingerprint
                == zobrist_of(Seq::empty()),
{
    lemma_fingerprint_from(init_view(), events);
}

/// The stream with every variation-opening event removed.
pub open spec fn mainline_of(events: Seq<EventView>) -> Seq<EventView>
    decreases events.len(),
{
    if events.len() == 0 {
        events
    } else if events[0] is VariationEnter {
        mainline_of(events.drop_first())
    } else {
        seq![events[0]] + mainline_of(events.drop_first())
    }
}

/// Side variations leave no trace: a variation opening is always answered
/// with "skip" and changes nothing, so a stream ingests exactly as its
/// mainline does.
pub proof fn lemma_variations_ignored(s: StateView, events: Seq<EventView>)
    ensures
        run_spec(s, events) == run_spec(s, mainline_of(events)),
    decreases events.len(),
{
    if events.len() > 0 {
        let rest = events.drop_first();
        if events[0] is VariationEnter {
            lemma_variations_ignored(s, rest);
        } else {
            lemma_variations_ignored(step(s, events[0]), rest);
            assert((seq![events[0]] + mainline_of(rest)).drop_first() =~= mainline_of(rest));
            assert((seq![events[0]] + mainline_of(rest))[0] == events[0]);
        }
    }
}

/// Fingerprints are deterministic: whenever two visitor states carry equal
/// sequences of successfully applied moves, the records emitted for their
/// next plies carry the same fingerprint, whatever the games and whatever
/// the moves now being recorded. That two *different* move orders reach the
/// same board is a fact of chess outside this model, so the full
/// transposition claim is exercised against the real rules engine by a test.
pub proof fn lemma_fingerprint_deterministic(
    s1: StateView,
    s2: StateView,
    san1: Seq<char>,
    san2: Seq<char>,
)
    requires
        s1.applied == s2.applied,
    ensures
        step(s1, EventView::Move(san1)).positions.last().fingerprint == step(
            s2,
            EventView::Move(san2),
        ).positions.last().fingerprint,
{
}

/// When the white and black tags were absent from a game, its record stores
/// the sentinel name for both players — a non-empty text, not an empty one.
pub proof fn lemma_missing_names_sentinel(s: StateView)
    requires
        s.white is None,
        s.black is None,
    ensures
        step(s, EventView::GameEnd).games.last().white == "NN"@,
        step(s, EventView::GameEnd).games.last().black == "NN"@,
        step(s, EventView::GameEnd).games.last().white.len() > 0,
{
    reveal_strlit("NN");
}

} // verus!
