use position_index::records::{fingerprint_le_bytes, GameRecord, PositionRecord};
use position_index::visitor::{ingest, Event};
use rusqlite::Connection;

const CREATE_TABLES: &str = "
CREATE TABLE games (
    game_id  INTEGER PRIMARY KEY,
    white  TEXT NOT NULL,
    black TEXT NOT NULL,
    event TEXT,
    date TEXT,
    moves TEXT
);
CREATE TABLE zobrist (
    zhash    BLOB,
    game_id INTEGER,
    move_san TEXT,
    move_num INTEGER
);
";

fn insert_game(tx: &rusqlite::Transaction, g: &GameRecord) -> rusqlite::Result<()> {
    tx.execute(
        "INSERT INTO games (game_id, white, black, event, moves, date) VALUES (?1, ?2, ?3, ?4, ?5, ?6)",
        (g.game_id as i64, &g.white, &g.black, &g.event, &g.moves, &g.date),
    )?;
    Ok(())
}

fn insert_position(tx: &rusqlite::Transaction, p: &PositionRecord) -> rusqlite::Result<()> {
    tx.execute(
        "INSERT INTO zobrist (zhash, game_id, move_san, move_num) VALUES (?1, ?2, ?3, ?4)",
        (fingerprint_le_bytes(p.fingerprint), p.game_id as i64, &p.move_san, p.move_num as i64),
    )?;
    Ok(())
}

fn three_ingested_games() -> position_index::visitor::GameUploader {
    let mut events = vec![
        Event::GameStart,
        Event::Tag(b"White".to_vec(), b"Alice".to_vec()),
        Event::Move("e4".to_string()),
        Event::Move("e5".to_string()),
        Event::GameEnd,
    ];
    events.extend([Event::GameStart, Event::Move("d4".to_string()), Event::GameEnd]);
    events.extend([Event::GameStart, Event::Move("c4".to_string()), Event::GameEnd]);
    ingest(&events)
}

#[test]
fn committed_run_stores_every_row() {
    let u = three_ingested_games();
    let mut conn = Connection::open_in_memory().unwrap();
    conn.execute_batch(CREATE_TABLES).unwrap();
    let tx = conn.transaction().unwrap();
    for g in &u.games {
        insert_game(&tx, g).unwrap();
    }
    for p in &u.positions {
        insert_position(&tx, p).unwrap();
    }
    tx.commit().unwrap();
    let games: i64 = conn.query_row("SELECT COUNT(*) FROM games", [], |r| r.get(0)).unwrap();
    let rows: i64 = conn.query_row("SELECT COUNT(*) FROM zobrist", [], |r| r.get(0)).unwrap();
    assert_eq!(games, 3);
    assert_eq!(rows, 4);
    // The stored fingerprint bytes are the little-endian form, so a raw-byte
    // lookup finds the game again.
    let white: String = conn
        .query_row(
            "SELECT white FROM games WHERE game_id = (SELECT game_id FROM zobrist WHERE zhash = ?1 AND move_num = 2)",
            [fingerprint_le_bytes(u.positions[1].fingerprint)],
            |r| r.get(0),
        )
        .unwrap();
    assert_eq!(white, "Alice");
}

#[test]
fn aborted_run_leaves_zero_rows() {
    let u = three_ingested_games();
    let mut conn = Connection::open_in_memory().unwrap();
    conn.execute_batch(CREATE_TABLES).unwrap();
    {
        let tx = conn.transaction().unwrap();
        // The first game goes in fine.
        insert_game(&tx, &u.games[0]).unwrap();
        for p in u.positions.iter().filter(|p| p.game_id == 1) {
            insert_position(&tx, p).unwrap();
        }
        // A storage failure on the second game: a primary-key collision.
        let mut clash = u.games[1].clone();
        clash.game_id = u.games[0].game_id;
        assert!(insert_game(&tx, &clash).is_err());
        // The run aborts: the transaction is dropped without a commit.
    }
    let games: i64 = conn.query_row("SELECT COUNT(*) FROM games", [], |r| r.get(0)).unwrap();
    let rows: i64 = conn.query_row("SELECT COUNT(*) FROM zobrist", [], |r| r.get(0)).unwrap();
    assert_eq!(games, 0);
    assert_eq!(rows, 0);
}
