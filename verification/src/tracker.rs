use shakmaty::Position;
use vstd::prelude::*;

verus! {

#[verifier::external_type_specification]
#[verifier::external_body]
pub struct ExChess(shakmaty::Chess);

/// Fingerprint of the board reached by applying a sequence of moves, given in
/// standard algebraic notation, to the canonical starting position. Applying a
/// fixed sequence of legal moves from the start is deterministic, and the hash
/// is computed from the resulting board alone, so the result is a function of
/// the move sequence; `zobrist_of(Seq::empty())` is the fingerprint of the
/// starting position itself.
pub uninterp spec fn zobrist_of(applied: Seq<Seq<char>>) -> u64;

/// Whether a move in standard algebraic notation parses and resolves to a
/// unique legal move on the board reached by applying `applied` to the
/// starting position. Resolution looks only at the board and the notation,
/// so the result is a function of the two arguments.
pub uninterp spec fn san_playable(applied: Seq<Seq<char>>, san: Seq<char>) -> bool;

/// The board position of the game currently being ingested.
///
/// The concrete board is kept opaque; its mathematical image is the sequence
/// of moves successfully applied to it since the last reset, available as the
/// tracker's view. Every mutation goes through the methods below, so the
/// board is always the one reached by applying the viewed sequence to the
/// starting position.
pub struct Tracker {
    board: shakmaty::Chess,
    applied: Ghost<Seq<Seq<char>>>,
}

impl View for Tracker {
    type V = Seq<Seq<char>>;

    closed spec fn view(&self) -> Seq<Seq<char>> {
        self.applied@
    }
}

impl Tracker {
    /// Relies on `shakmaty::Chess::default`: the canonical starting position.
    #[verifier::external_body]
    pub(crate) fn new() -> (t: Tracker)
        ensures
            t@ == Seq::<Seq<char>>::empty(),
    {
        Tracker { board: shakmaty::Chess::default(), applied: Ghost(Seq::empty()) }
    }

    /// Relies on `shakmaty::Chess::default`: puts the board back to the
    /// canonical starting position.
    #[verifier::external_body]
    pub(crate) fn reset(&mut self)
        ensures
            final(self)@ == Seq::<Seq<char>>::empty(),
    {
        self.board = shakmaty::Chess::default();
    }

    /// Relies on `shakmaty::Position::zobrist_hash` with 64-bit values and
    /// legal en-passant mode: a deterministic hash of the current board.
    #[verifier::external_body]
    pub(crate) fn fingerprint(&self) -> (h: u64)
        ensures
            h == zobrist_of(self@),
    {
        self.board
            .zobrist_hash::<shakmaty::zobrist::Zobrist64>(shakmaty::EnPassantMode::Legal)
            .into()
    }

    /// Relies on `shakmaty::san::SanPlus::from_ascii` (syntactic parse),
    /// `shakmaty::san::San::to_move` (resolves to a unique legal move, or
    /// errors) and `shakmaty::Position::play_unchecked` (applies a legal
    /// move). On any error the board is left unchanged.
    #[verifier::external_body]
    pub(crate) fn apply_san(&mut self, san: &str) -> (applied: bool)
        ensures
            applied == san_playable(old(self)@, san@),
            final(self)@ == if san_playable(old(self)@, san@) {
                old(self)@.push(san@)
            } else {
                old(self)@
            },
    {
        match shakmaty::san::SanPlus::from_ascii(san.as_bytes()) {
            Ok(san_plus) => match san_plus.san.to_move(&self.board) {
                Ok(m) => {
                    shakmaty::Position::play_unchecked(&mut self.board, m);
                    true
                },
                Err(_) => false,
            },
            Err(_) => false,
        }
    }
}

/// The decoded text of a raw tag value: escape sequences resolved, then
/// interpreted as text with invalid byte sequences replaced, so decoding
/// never fails. The result depends on the bytes alone.
pub uninterp spec fn tag_text_of(raw: Seq<u8>) -> Seq<char>;

/// Relies on `pgn_reader::RawTag::decode_utf8_lossy`: resolves backslash
/// escapes and decodes the bytes as UTF-8, substituting the replacement
/// character for invalid sequences.
#[verifier::external_body]
pub(crate) fn decode_tag_lossy(raw: &[u8]) -> (text: String)
    ensures
        text@ == tag_text_of(raw@),
{
    pgn_reader::RawTag(raw).decode_utf8_lossy().into_owned()
}

} // verus!
