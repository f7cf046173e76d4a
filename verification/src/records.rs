use vstd::prelude::*;

verus! {

/// Summary row for one completed game, emitted once at the end-of-game event.
#[derive(Clone, Debug, PartialEq, Eq)]
pub struct GameRecord {
    pub game_id: u64,
    pub white: String,
    pub black: String,
    pub event: Option<String>,
    pub date: String,
    pub moves: String,
}

/// Mathematical image of a [`GameRecord`].
#[verifier::ext_equal]
pub struct GameRecordView {
    pub game_id: int,
    pub white: Seq<char>,
    pub black: Seq<char>,
    pub event: Option<Seq<char>>,
    pub date: Seq<char>,
    pub moves: Seq<char>,
}

pub open spec fn opt_text(o: Option<String>) -> Option<Seq<char>> {
    match o {
        Option::Some(s) => Option::Some(s@),
        Option::None => Option::None,
    }
}

impl View for GameRecord {
    type V = GameRecordView;

    open spec fn view(&self) -> GameRecordView {
        GameRecordView {
            game_id: self.game_id as int,
            white: self.white@,
            black: self.black@,
            event: opt_text(self.event),
            date: self.date@,
            moves: self.moves@,
        }
    }
}

/// Row linking the fingerprint of the position a move was played *from*
/// to the game and the 1-based ply number of that move.
#[derive(Clone, Debug, PartialEq, Eq)]
pub struct PositionRecord {
    pub fingerprint: u64,
    pub game_id: u64,
    pub move_san: String,
    pub move_num: u64,
}

/// Mathematical image of a [`PositionRecord`].
#[verifier::ext_equal]
pub struct PositionRecordView {
    pub fingerprint: u64,
    pub game_id: int,
    pub move_san: Seq<char>,
    pub move_num: int,
}

impl View for PositionRecord {
    type V = PositionRecordView;

    open spec fn view(&self) -> PositionRecordView {
        PositionRecordView {
            fingerprint: self.fingerprint,
            game_id: self.game_id as int,
            move_san: self.move_san@,
            move_num: self.move_num as int,
        }
    }
}

/// Byte `i` of the little-endian encoding of a 64-bit fingerprint.
pub open spec fn le_byte(fingerprint: u64, i: int) -> u8 {
    ((fingerprint >> ((8 * i) as u64)) & 0xff) as u8
}

/// Fixed-width little-endian encoding of a fingerprint, so that raw-byte
/// lookups in the store are portable across writers and readers.
pub fn fingerprint_le_bytes(fingerprint: u64) -> (r: Vec<u8>)
    ensures
        r@.len() == 8,
        forall|i: int| 0 <= i < 8 ==> r@[i] == le_byte(fingerprint, i),
{
    let mut r: Vec<u8> = Vec::new();
    let mut i: usize = 0;
    while i < 8
        invariant
            i <= 8,
            r@.len() == i,
            forall|j: int| 0 <= j < i ==> r@[j] == le_byte(fingerprint, j),
        decreases 8 - i,
    {
        let b: u8 = ((fingerprint >> ((8 * i) as u64)) & 0xff) as u8;
        r.push(b);
        i = i + 1;
    }
    r
}

} // verus!
