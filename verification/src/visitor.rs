use crate::records::{opt_text, GameRecord, GameRecordView, PositionRecord, PositionRecordView};
use crate::tracker::{decode_tag_lossy, san_playable, tag_text_of, zobrist_of, Tracker};
use vstd::prelude::*;
use vstd::string::StringExecFns;
use vstd::string::StringSliceAdditionalSpecFns;

verus! {

/// One call of the movetext parser into the ingestion visitor.
#[derive(Clone, Debug, PartialEq, Eq)]
pub enum Event {
    /// A new game begins; tags and moves that follow belong to it.
    GameStart,
    /// A tag pair: raw name bytes and raw value bytes.
    Tag(Vec<u8>, Vec<u8>),
    /// A mainline half-move in standard algebraic notation.
    Move(String),
    /// The parser stands at the opening of a side variation.
    VariationEnter,
    /// The current game is complete.
    GameEnd,
}

/// Mathematical image of an [`Event`].
#[verifier::ext_equal]
pub enum EventView {
    GameStart,
    Tag(Seq<u8>, Seq<u8>),
    Move(Seq<char>),
    VariationEnter,
    GameEnd,
}

impl View for Event {
    type V = EventView;

    open spec fn view(&self) -> EventView {
        match self {
            Event::GameStart => EventView::GameStart,
            Event::Tag(name, value) => EventView::Tag(name@, value@),
            Event::Move(san_plus) => EventView::Move(san_plus@),
            Event::VariationEnter => EventView::VariationEnter,
            Event::GameEnd => EventView::GameEnd,
        }
    }
}

/// Mathematical image of the whole visitor: the records emitted so far and
/// the per-game accumulator state.
#[verifier::ext_equal]
pub struct StateView {
    pub games: Seq<GameRecordView>,
    pub positions: Seq<PositionRecordView>,
    pub white: Option<Seq<char>>,
    pub black: Option<Seq<char>>,
    pub event: Option<Seq<char>>,
    pub date: Seq<char>,
    pub moves: Seq<char>,
    pub applied: Seq<Seq<char>>,
    pub current_id: int,
    pub move_num: int,
}

/// Player name stored in a game record: the tag text when the tag was seen,
/// else the sentinel for an unknown player.
pub open spec fn or_nn(name: Option<Seq<char>>) -> Seq<char> {
    match name {
        Option::Some(text) => text,
        Option::None => "NN"@,
    }
}

/// One transition of the ingestion state machine. This is the specification
/// that every event handler below is proved to implement exactly.
pub open spec fn step(s: StateView, event: EventView) -> StateView {
    match event {
        EventView::GameStart => StateView {
            white: Option::None,
            black: Option::None,
            event: Option::None,
            date: Seq::empty(),
            moves: Seq::empty(),
            applied: Seq::empty(),
            current_id: s.current_id + 1,
            move_num: 1,
            ..s
        },
        EventView::Tag(name, value) => {
            if name == "White".spec_bytes() {
                StateView { white: Option::Some(tag_text_of(value)), ..s }
            } else if name == "Black".spec_bytes() {
                StateView { black: Option::Some(tag_text_of(value)), ..s }
            } else if name == "Event".spec_bytes() {
                StateView { event: Option::Some(tag_text_of(value)), ..s }
            } else if name == "Date".spec_bytes() {
                StateView { date: tag_text_of(value), ..s }
            } else {
                s
            }
        },
        EventView::Move(san_plus) => StateView {
            positions: s.positions.push(
                PositionRecordView {
                    fingerprint: zobrist_of(s.applied),
                    game_id: s.current_id,
                    move_san: san_plus,
                    move_num: s.move_num,
                },
            ),
            moves: s.moves + ":"@ + san_plus,
            applied: if san_playable(s.applied, san_plus) {
                s.applied.push(san_plus)
            } else {
                s.applied
            },
            move_num: s.move_num + 1,
            ..s
        },
        EventView::VariationEnter => s,
        EventView::GameEnd => StateView {
            games: s.games.push(
                GameRecordView {
                    game_id: s.current_id,
                    white: or_nn(s.white),
                    black: or_nn(s.black),
                    event: s.event,
                    date: s.date,
                    moves: s.moves,
                },
            ),
            ..s
        },
    }
}

/// State of the visitor before any event: no records, an empty accumulator,
/// the board at the starting position, and no game identifier handed out yet.
pub open spec fn init_view() -> StateView {
    StateView {
        games: Seq::empty(),
        positions: Seq::empty(),
        white: Option::None,
        black: Option::None,
        event: Option::None,
        date: Seq::empty(),
        moves: Seq::empty(),
        applied: Seq::empty(),
        current_id: 0,
        move_num: 1,
    }
}

/// The state after a whole sequence of events, one [`step`] per event.
pub open spec fn run_spec(s: StateView, events: Seq<EventView>) -> StateView
    decreases events.len(),
{
    if events.len() == 0 {
        s
    } else {
        run_spec(step(s, events[0]), events.drop_first())
    }
}

/// Per-game tag state: player names and the event, present only once the
/// corresponding tag has been seen in the current game.
pub struct GameInfo {
    pub white: Option<String>,
    pub black: Option<String>,
    pub event: Option<String>,
}

impl GameInfo {
    /// Clear the tag state so nothing observable leaks into the next game.
    pub fn reset(&mut self)
        ensures
            final(self).white is None,
            final(self).black is None,
            final(self).event is None,
    {
        self.white = Option::None;
        self.black = Option::None;
        self.event = Option::None;
    }
}

impl Default for GameInfo {
    fn default() -> (info: GameInfo)
        ensures
            info.white is None,
            info.black is None,
            info.event is None,
    {
        GameInfo { white: Option::None, black: Option::None, event: Option::None }
    }
}

/// The ingestion visitor: driven event by event, it keeps the running board
/// position, a monotonic game identifier, the per-game accumulator, and the
/// records emitted so far. Nothing here is durable; a caller stores the two
/// record vectors in a single all-or-nothing transaction once the event
/// stream has ended.
pub struct GameUploader {
    pub tracker: Tracker,
    pub game_info: GameInfo,
    pub current_id: u64,
    pub move_num: u64,
    pub game_date: String,
    pub moves: String,
    pub games: Vec<GameRecord>,
    pub positions: Vec<PositionRecord>,
}

impl View for GameUploader {
    type V = StateView;

    open spec fn view(&self) -> StateView {
        StateView {
            games: self.games@.map_values(|g: GameRecord| g@),
            positions: self.positions@.map_values(|p: PositionRecord| p@),
            white: opt_text(self.game_info.white),
            black: opt_text(self.game_info.black),
            event: opt_text(self.game_info.event),
            date: self.game_date@,
            moves: self.moves@,
            applied: self.tracker@,
            current_id: self.current_id as int,
            move_num: self.move_num as int,
        }
    }
}

/// Element-wise comparison of two byte slices.
fn bytes_eq(a: &[u8], b: &[u8]) -> (r: bool)
    ensures
        r == (a@ == b@),
{
    if a.len() != b.len() {
        return false;
    }
    let mut i: usize = 0;
    while i < a.len()
        invariant
            i <= a@.len(),
            a@.len() == b@.len(),
            forall|j: int| 0 <= j < i ==> a@[j] == b@[j],
        decreases a@.len() - i,
    {
        if a[i] != b[i] {
            return false;
        }
        i = i + 1;
    }
    proof {
        assert(a@ =~= b@);
    }
    true
}

impl GameUploader {
    pub fn new() -> (u: GameUploader)
        ensures
            u@ == init_view(),
    {
        let u = GameUploader {
            tracker: Tracker::new(),
            game_info: GameInfo::default(),
            current_id: 0,
            move_num: 1,
            game_date: String::new(),
            moves: String::new(),
            games: Vec::new(),
            positions: Vec::new(),
        };
        proof {
            assert(u@ =~~= init_view());
        }
        u
    }

    /// Reset the accumulator and the board for the next game and hand out the
    /// next game identifier.
    pub fn prepare_for_next_game(&mut self)
        requires
            old(self).current_id < u64::MAX,
        ensures
            final(self)@ == step(old(self)@, EventView::GameStart),
    {
        self.game_info.reset();
        self.tracker.reset();
        self.game_date = String::new();
        self.move_num = 1;
        self.current_id = self.current_id + 1;
        self.moves = String::new();
        proof {
            assert(self@ =~~= step(old(self)@, EventView::GameStart));
        }
    }

    /// A new game begins.
    pub fn begin_game(&mut self)
        requires
            old(self).current_id < u64::MAX,
        ensures
            final(self)@ == step(old(self)@, EventView::GameStart),
    {
        self.prepare_for_next_game();
    }

    /// Route a tag pair: the four known names fill the accumulator, with the
    /// raw value decoded as text in a way that never fails; every other name
    /// is ignored.
    pub fn tag(&mut self, name: &[u8], value: &[u8])
        ensures
            final(self)@ == step(old(self)@, EventView::Tag(name@, value@)),
    {
        if bytes_eq(name, "White".as_bytes()) {
            self.game_info.white = Option::Some(decode_tag_lossy(value));
        } else if bytes_eq(name, "Black".as_bytes()) {
            self.game_info.black = Option::Some(decode_tag_lossy(value));
        } else if bytes_eq(name, "Event".as_bytes()) {
            self.game_info.event = Option::Some(decode_tag_lossy(value));
        } else if bytes_eq(name, "Date".as_bytes()) {
            self.game_date = decode_tag_lossy(value);
        }
        proof {
            assert(self@ =~~= step(old(self)@, EventView::Tag(name@, value@)));
        }
    }

    /// A mainline half-move: emit the position-index record for the position
    /// the move is played *from*, append the move to the move list, then try
    /// to apply it to the board. A move that does not resolve to a legal move
    /// leaves the board unchanged and ingestion continues; every later
    /// fingerprint of the game then describes the stale board, not the true
    /// game line.
    pub fn san(&mut self, san_plus: &str)
        requires
            old(self).move_num < u64::MAX,
        ensures
            final(self)@ == step(old(self)@, EventView::Move(san_plus@)),
    {
        let fingerprint = self.tracker.fingerprint();
        let record = PositionRecord {
            fingerprint,
            game_id: self.current_id,
            move_san: san_plus.to_owned(),
            move_num: self.move_num,
        };
        self.positions.push(record);
        self.moves.append(":");
        self.moves.append(san_plus);
        let _applied = self.tracker.apply_san(san_plus);
        self.move_num = self.move_num + 1;
        proof {
            assert(self@ =~~= step(old(self)@, EventView::Move(san_plus@)));
        }
    }

    /// The visitor never descends into a side variation: the answer is always
    /// "skip", and nothing in the state changes.
    pub fn begin_variation(&mut self) -> (skip: bool)
        ensures
            final(self)@ == step(old(self)@, EventView::VariationEnter),
            skip,
    {
        true
    }

    /// The current game is complete: emit its summary record, substituting
    /// the sentinel name for a missing white or black tag.
    pub fn end_game(&mut self)
        ensures
            final(self)@ == step(old(self)@, EventView::GameEnd),
    {
        let white = match &self.game_info.white {
            Option::Some(w) => w.clone(),
            Option::None => "NN".to_owned(),
        };
        let black = match &self.game_info.black {
            Option::Some(b) => b.clone(),
            Option::None => "NN".to_owned(),
        };
        let event = match &self.game_info.event {
            Option::Some(e) => Option::Some(e.clone()),
            Option::None => Option::None,
        };
        let record = GameRecord {
            game_id: self.current_id,
            white,
            black,
            event,
            date: self.game_date.clone(),
            moves: self.moves.clone(),
        };
        self.games.push(record);
        proof {
            assert(self@ =~~= step(old(self)@, EventView::GameEnd));
        }
    }

    /// Dispatch one event to its handler and return whether the parser should
    /// skip what follows, which is the case exactly at a variation opening.
    pub fn handle(&mut self, event: &Event) -> (skip: bool)
        requires
            event@ is GameStart ==> old(self).current_id < u64::MAX,
            event@ is Move ==> old(self).move_num < u64::MAX,
        ensures
            final(self)@ == step(old(self)@, event@),
            skip == (event@ is VariationEnter),
    {
        match event {
            Event::GameStart => {
                self.begin_game();
                false
            },
            Event::Tag(name, value) => {
                self.tag(name.as_slice(), value.as_slice());
                false
            },
            Event::Move(san_plus) => {
                self.san(san_plus.as_str());
                false
            },
            Event::VariationEnter => self.begin_variation(),
            Event::GameEnd => {
                self.end_game();
                false
            },
        }
    }
}

/// Run a fresh visitor over a whole event sequence.
pub fn ingest(events: &Vec<Event>) -> (u: GameUploader)
    requires
        events@.len() < u64::MAX,
    ensures
        u@ == run_spec(init_view(), events@.map_values(|e: Event| e@)),
{
    let ghost evs: Seq<EventView> = events@.map_values(|e: Event| e@);
    let mut u = GameUploader::new();
    let mut i: usize = 0;
    proof {
        assert(evs.skip(0) =~= evs);
    }
    while i < events.len()
        invariant
            i <= events@.len(),
            events@.len() < u64::MAX,
            evs == events@.map_values(|e: Event| e@),
            evs.len() == events@.len(),
            u.current_id as int <= i,
            u.move_num as int <= i + 1,
            run_spec(u@, evs.skip(i as int)) == run_spec(init_view(), evs),
        decreases events@.len() - i,
    {
        let ghost before = u@;
        let _skip = u.handle(&events[i]);
        proof {
            assert(evs.skip(i as int)[0] == evs[i as int]);
            assert(evs.skip(i as int).drop_first() =~= evs.skip(i as int + 1));
            assert(run_spec(before, evs.skip(i as int)) == run_spec(
                step(before, evs[i as int]),
                evs.skip(i as int + 1),
            ));
        }
        i = i + 1;
    }
    proof {
        assert(evs.skip(i as int) =~= Seq::<EventView>::empty());
    }
    u
}

} // verus!
