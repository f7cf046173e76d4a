use position_index::records::fingerprint_le_bytes;
use position_index::visitor::{ingest, Event, GameUploader};
use shakmaty::zobrist::Zobrist64;
use shakmaty::{Chess, EnPassantMode, Position};

fn tag(name: &str, value: &str) -> Event {
    Event::Tag(name.as_bytes().to_vec(), value.as_bytes().to_vec())
}

fn mv(san: &str) -> Event {
    Event::Move(san.to_string())
}

fn game(tags: &[(&str, &str)], moves: &[&str]) -> Vec<Event> {
    let mut events = vec![Event::GameStart];
    for (name, value) in tags {
        events.push(tag(name, value));
    }
    for san in moves {
        events.push(mv(san));
    }
    events.push(Event::GameEnd);
    events
}

fn start_fingerprint() -> u64 {
    Chess::default()
        .zobrist_hash::<Zobrist64>(EnPassantMode::Legal)
        .into()
}

#[test]
fn counts_games_and_positions() {
    let mut events = game(&[("White", "Alice")], &["e4", "e5", "Nf3"]);
    events.extend(game(&[], &["d4", "d5"]));
    let u = ingest(&events);
    assert_eq!(u.games.len(), 2);
    assert_eq!(u.positions.len(), 5);
}

#[test]
fn game_ids_are_sequential_from_one() {
    let mut events = game(&[], &["e4"]);
    events.extend(game(&[], &[]));
    events.extend(game(&[], &["d4"]));
    let u = ingest(&events);
    let ids: Vec<u64> = u.games.iter().map(|g| g.game_id).collect();
    assert_eq!(ids, vec![1, 2, 3]);
    assert_eq!(u.positions[0].game_id, 1);
    assert_eq!(u.positions[1].game_id, 3);
}

#[test]
fn move_numbers_count_plies_from_one() {
    let events = game(&[], &["e4", "e5", "Nf3", "Nc6"]);
    let u = ingest(&events);
    let nums: Vec<u64> = u.positions.iter().map(|p| p.move_num).collect();
    assert_eq!(nums, vec![1, 2, 3, 4]);
}

#[test]
fn first_ply_fingerprint_is_the_starting_position() {
    let mut events = game(&[], &["e4", "e5"]);
    events.extend(game(&[], &["c4"]));
    let u = ingest(&events);
    let expected = start_fingerprint();
    assert_eq!(u.positions[0].fingerprint, expected);
    assert_eq!(u.positions[2].fingerprint, expected);
    // A later ply describes a different board.
    assert_ne!(u.positions[1].fingerprint, expected);
}

#[test]
fn transpositions_share_fingerprints() {
    let mut events = game(&[], &["e4", "e5", "Nf3", "Nc6", "Bb5"]);
    events.extend(game(&[], &["Nf3", "Nc6", "e4", "e5", "Bb5"]));
    let u = ingest(&events);
    // Both games reach the same board after four plies, so the record for
    // ply five carries the same fingerprint in both, although the move
    // orders differ.
    assert_eq!(u.positions[4].fingerprint, u.positions[9].fingerprint);
    assert_ne!(u.positions[1].fingerprint, u.positions[6].fingerprint);
}

#[test]
fn missing_name_tags_store_the_sentinel() {
    let events = game(&[("Event", "Casual")], &["e4"]);
    let u = ingest(&events);
    assert_eq!(u.games[0].white, "NN");
    assert_eq!(u.games[0].black, "NN");
    assert_eq!(u.games[0].event.as_deref(), Some("Casual"));
}

#[test]
fn known_tags_are_routed_and_others_ignored() {
    let events = game(
        &[
            ("White", "Kasparov, Garry"),
            ("Black", "Karpov, Anatoly"),
            ("Event", "World Championship"),
            ("Date", "1990.10.08"),
            ("Site", "Lyon"),
        ],
        &[],
    );
    let u = ingest(&events);
    assert_eq!(u.games[0].white, "Kasparov, Garry");
    assert_eq!(u.games[0].black, "Karpov, Anatoly");
    assert_eq!(u.games[0].event.as_deref(), Some("World Championship"));
    assert_eq!(u.games[0].date, "1990.10.08");
}

#[test]
fn tag_values_are_unescaped_when_decoded() {
    // A backslash-escaped quote and backslash in the raw value come out as
    // the plain characters, so the decoder does not hand the bytes back
    // unchanged.
    let events = game(&[("White", r#"An \"odd\" \\name"#)], &[]);
    let u = ingest(&events);
    assert_eq!(u.games[0].white, r#"An "odd" \name"#);
}

#[test]
fn tag_state_does_not_leak_between_games() {
    let mut events = game(
        &[("White", "Alice"), ("Black", "Bob"), ("Event", "Open"), ("Date", "2024.01.01")],
        &["e4"],
    );
    events.extend(game(&[], &["d4"]));
    let u = ingest(&events);
    assert_eq!(u.games[1].white, "NN");
    assert_eq!(u.games[1].black, "NN");
    assert_eq!(u.games[1].event, None);
    assert_eq!(u.games[1].date, "");
}

#[test]
fn moves_are_stored_colon_separated() {
    let events = game(&[], &["e4", "e5", "Nf3", "Nc6"]);
    let u = ingest(&events);
    assert_eq!(u.games[0].moves, ":e4:e5:Nf3:Nc6");
}

#[test]
fn variation_openings_change_nothing() {
    let plain = game(&[("White", "Alice")], &["e4", "e5"]);
    let mut dotted: Vec<Event> = Vec::new();
    for e in plain.iter() {
        dotted.push(Event::VariationEnter);
        dotted.push(e.clone());
    }
    dotted.push(Event::VariationEnter);
    let a = ingest(&plain);
    let b = ingest(&dotted);
    assert_eq!(a.games, b.games);
    assert_eq!(a.positions, b.positions);
}

#[test]
fn variation_opening_always_signals_skip() {
    let mut u = GameUploader::new();
    u.begin_game();
    assert!(u.begin_variation());
    assert!(u.handle(&Event::VariationEnter));
    assert!(!u.handle(&Event::Move("e4".to_string())));
}

#[test]
fn three_games_second_empty_and_nameless() {
    let mut events = game(&[("White", "Alice"), ("Black", "Bob")], &["e4", "e5"]);
    events.extend(game(&[], &[]));
    events.extend(game(&[("White", "Carol")], &["d4"]));
    let u = ingest(&events);
    assert_eq!(u.games.len(), 3);
    let second = &u.games[1];
    assert_eq!(second.game_id, 2);
    assert_eq!(second.white, "NN");
    assert_eq!(second.black, "NN");
    assert_eq!(second.moves, "");
    assert_eq!(u.positions.iter().filter(|p| p.game_id == 2).count(), 0);
    assert_eq!(u.positions.len(), 3);
}

#[test]
fn unresolvable_move_keeps_the_stale_board() {
    // After 1. e4 the reply Qh7 resolves to no legal move: the record for it
    // is still emitted, the board stays as it was, and the next fingerprint
    // describes that stale board.
    let events = game(&[], &["e4", "Qh7", "e5"]);
    let u = ingest(&events);
    assert_eq!(u.positions.len(), 3);
    assert_ne!(u.positions[0].fingerprint, u.positions[1].fingerprint);
    assert_eq!(u.positions[1].fingerprint, u.positions[2].fingerprint);
    assert_eq!(u.games[0].moves, ":e4:Qh7:e5");
}

#[test]
fn fingerprint_encoding_is_little_endian() {
    let bytes = fingerprint_le_bytes(0x0123_4567_89AB_CDEF);
    assert_eq!(bytes, vec![0xEF, 0xCD, 0xAB, 0x89, 0x67, 0x45, 0x23, 0x01]);
    let h = start_fingerprint();
    assert_eq!(fingerprint_le_bytes(h), h.to_le_bytes().to_vec());
}
