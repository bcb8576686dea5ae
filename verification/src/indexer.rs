//! The state that is kept while one game is read, and the decisions that are
//! taken on it: what each header changes, whether the moves are read or
//! skipped, and what is written when the game ends.

use crate::decimal::{parse_i16, unsigned_decimal, PLUS};
use crate::emit::{emit, emitted, EncodingError};
use crate::sampling::{accepts, decide, probability, random_draw, retention, Probability, Ratio};
use crate::time_control::{time_control_of, TimeControl, TimeControlError};
use vstd::prelude::*;
use vstd::string::StringSliceAdditionalSpecFns;
use vstd::utf8::valid_utf8;

verus! {

/// Tells the reader to pass over what follows: the moves of a game, or a
/// variation.
#[derive(Clone, Copy, Debug, PartialEq, Eq, Structural)]
pub struct Skip(pub bool);

/// The rating that stands for an unknown one.
pub const UNKNOWN_RATING: u8 = 0x3f;

/// The name of the header that holds the rating of the player with the white
/// pieces.
pub open spec fn white_elo_key() -> Seq<u8> {
    "WhiteElo".spec_bytes()
}

/// The name of the header that holds the rating of the player with the black
/// pieces.
pub open spec fn black_elo_key() -> Seq<u8> {
    "BlackElo".spec_bytes()
}

/// The name of the header that holds the declared time control.
pub open spec fn time_control_key() -> Seq<u8> {
    "TimeControl".spec_bytes()
}

/// The rating that a header value stands for: the number that it writes in
/// decimal digits, with or without a `+` before them, where that number is
/// at most `i16::MAX`. Every other value, the `?` of an unknown rating among
/// them, stands for 0.
pub open spec fn rating_of(value: Seq<u8>) -> int {
    let numeral = if value.len() > 0 && value[0] == PLUS {
        value.drop_first()
    } else {
        value
    };
    match unsigned_decimal(numeral) {
        Some(rating) => if rating <= i16::MAX {
            rating as int
        } else {
            0
        },
        None => 0,
    }
}

/// What is known of the game that is being read.
pub struct Snapshot {
    /// The rating of the player with the white pieces, 0 where unknown.
    pub white_elo: int,
    /// The rating of the player with the black pieces, 0 where unknown.
    pub black_elo: int,
    /// The speed class of the game.
    pub time_control: TimeControl,
    /// Whether the game is dropped.
    pub skip: bool,
}

impl Snapshot {
    /// Both ratings are ratings: not negative, and within `i16`.
    pub open spec fn wf(self) -> bool {
        &&& 0 <= self.white_elo <= i16::MAX
        &&& 0 <= self.black_elo <= i16::MAX
    }

    /// The state before the first game.
    pub open spec fn initial() -> Snapshot {
        Snapshot {
            white_elo: 0,
            black_elo: 0,
            time_control: TimeControl::Correspondence,
            skip: true,
        }
    }

    /// The state at the start of a game's headers: nothing is known of the
    /// players or of the clock. The last decision stays until the next one.
    pub open spec fn reset(self) -> Snapshot {
        Snapshot {
            white_elo: 0,
            black_elo: 0,
            time_control: TimeControl::Correspondence,
            skip: self.skip,
        }
    }

    /// The state after one header, or `None` where the header declares a
    /// malformed time control. Headers of other names change nothing.
    pub open spec fn after_header(self, key: Seq<u8>, value: Seq<u8>) -> Option<Snapshot> {
        if key == white_elo_key() {
            Some(Snapshot { white_elo: rating_of(value), ..self })
        } else if key == black_elo_key() {
            Some(Snapshot { black_elo: rating_of(value), ..self })
        } else if key == time_control_key() {
            match time_control_of(value) {
                Some(time_control) => Some(Snapshot { time_control, ..self }),
                None => None,
            }
        } else {
            Some(self)
        }
    }

    /// The mean of the two ratings, rounded down.
    pub open spec fn average_rating(self) -> int {
        (self.white_elo + self.black_elo) / 2
    }

    /// The probability with which the game is kept.
    pub open spec fn probability(self) -> Ratio {
        retention(self.time_control, self.average_rating())
    }

    /// The state after the decision that `draw` brings.
    pub open spec fn decided(self, draw: u64) -> Snapshot {
        Snapshot { skip: !accepts(self.probability(), draw as nat), ..self }
    }
}

/// The visitor of a game archive that keeps a sample of its games.
///
/// A reader calls `begin_headers`, then `header` once for each header, then
/// `end_headers`, whose answer tells it whether to read the moves or to pass
/// over them, `begin_variation` at each variation that it meets, and at last
/// `end_game` with the bytes of the whole game.
#[derive(Clone, Copy, Debug)]
pub struct Indexer {
    white_elo: i16,
    black_elo: i16,
    time_control: TimeControl,
    skip: bool,
}

impl View for Indexer {
    type V = Snapshot;

    closed spec fn view(&self) -> Snapshot {
        Snapshot {
            white_elo: self.white_elo as int,
            black_elo: self.black_elo as int,
            time_control: self.time_control,
            skip: self.skip,
        }
    }
}

/// Whether two byte strings are the same.
fn same_bytes(left: &[u8], right: &[u8]) -> (same: bool)
    ensures
        same == (left@ == right@),
{
    if left.len() != right.len() {
        return false;
    }
    let mut at: usize = 0;
    while at < left.len()
        invariant
            left.len() == right.len(),
            at <= left.len(),
            forall|i: int| 0 <= i < at ==> left@[i] == right@[i],
        decreases left.len() - at,
    {
        if left[at] != right[at] {
            return false;
        }
        at += 1;
    }
    assert(left@ =~= right@);
    true
}

/// Reads a rating from the value of a header. A value that holds no rating
/// gives 0.
pub fn parse_rating(value: &[u8]) -> (rating: i16)
    ensures
        rating == rating_of(value@),
        0 <= rating,
{
    if value.len() == 1 && value[0] == UNKNOWN_RATING {
        return 0;
    }
    match parse_i16(value) {
        Ok(rating) => if rating > 0 {
            rating
        } else {
            0
        },
        Err(_) => 0,
    }
}

impl Indexer {
    #[verifier::type_invariant]
    spec fn ratings_are_not_negative(self) -> bool {
        0 <= self.white_elo && 0 <= self.black_elo
    }

    /// The visitor before the first game.
    pub fn new() -> (indexer: Indexer)
        ensures
            indexer@ == Snapshot::initial(),
    {
        Indexer { white_elo: 0, black_elo: 0, time_control: TimeControl::Correspondence, skip: true }
    }

    /// Forgets the headers of the game before.
    pub fn begin_headers(&mut self)
        ensures
            final(self)@ == old(self)@.reset(),
            final(self)@.wf(),
    {
        proof {
            use_type_invariant(&*self);
        }
        self.white_elo = 0;
        self.black_elo = 0;
        self.time_control = TimeControl::Correspondence;
    }

    /// Takes one header of the game. `WhiteElo` and `BlackElo` set a rating,
    /// and a value that holds none sets 0. `TimeControl` sets the speed
    /// class; a malformed declaration is the one error, and leaves the state
    /// as it was. Every other header is passed over.
    pub fn header(&mut self, key: &[u8], value: &[u8]) -> (r: Result<(), TimeControlError>)
        ensures
            r is Ok <==> old(self)@.after_header(key@, value@) is Some,
            r is Ok ==> old(self)@.after_header(key@, value@) == Some(final(self)@),
            r is Err ==> final(self)@ == old(self)@,
            final(self)@.wf(),
    {
        proof {
            use_type_invariant(&*self);
        }
        if same_bytes(key, "WhiteElo".as_bytes()) {
            self.white_elo = parse_rating(value);
        } else if same_bytes(key, "BlackElo".as_bytes()) {
            self.black_elo = parse_rating(value);
        } else if same_bytes(key, "TimeControl".as_bytes()) {
            match TimeControl::from_bytes(value) {
                Ok(time_control) => {
                    self.time_control = time_control;
                },
                Err(error) => {
                    return Err(error);
                },
            }
        }
        Ok(())
    }

    /// Decides on the game from a draw of the thread's random generator, and
    /// tells the reader to pass over the moves of a game that is dropped.
    /// Whatever the draw, a game of probability 1 is kept.
    pub fn end_headers(&mut self) -> (skip: Skip)
        ensures
            exists|draw: u64| final(self)@ == #[trigger] old(self)@.decided(draw),
            skip.0 == final(self)@.skip,
            final(self)@.wf(),
    {
        let draw = random_draw();
        self.end_headers_with(draw)
    }

    /// Decides on the game from the given draw, and tells the reader to pass
    /// over the moves of a game that is dropped.
    pub fn end_headers_with(&mut self, draw: u64) -> (skip: Skip)
        ensures
            final(self)@ == old(self)@.decided(draw),
            skip.0 == final(self)@.skip,
            final(self)@.wf(),
    {
        proof {
            use_type_invariant(&*self);
        }
        let accept = decide(self.probability(), draw);
        self.skip = !accept;
        Skip(self.skip)
    }

    /// Tells the reader to pass over every variation: only the main line of a
    /// game is read.
    pub fn begin_variation(&self) -> (skip: Skip)
        ensures
            skip.0,
    {
        Skip(true)
    }

    /// Ends the game, whose bytes are `game`. A game that was dropped gives
    /// nothing to write. A game that was kept gives its bytes and a line
    /// feed, or an error where the bytes are not UTF-8 text.
    pub fn end_game(&self, game: &[u8]) -> (r: Result<Option<Vec<u8>>, EncodingError>)
        ensures
            r is Err <==> !self@.skip && !valid_utf8(game@),
            r matches Ok(written) ==> (written is None <==> self@.skip),
            r matches Ok(Some(output)) ==> output@ == emitted(game@),
    {
        if self.skip {
            return Ok(None);
        }
        match emit(game) {
            Ok(output) => Ok(Some(output)),
            Err(error) => Err(error),
        }
    }

    /// The rating of the player with the white pieces.
    pub fn white_elo(&self) -> (rating: i16)
        ensures
            rating == self@.white_elo,
            self@.wf(),
    {
        proof {
            use_type_invariant(self);
        }
        self.white_elo
    }

    /// The rating of the player with the black pieces.
    pub fn black_elo(&self) -> (rating: i16)
        ensures
            rating == self@.black_elo,
            self@.wf(),
    {
        proof {
            use_type_invariant(self);
        }
        self.black_elo
    }

    /// The speed class of the game.
    pub fn time_control(&self) -> (time_control: TimeControl)
        ensures
            time_control == self@.time_control,
    {
        self.time_control
    }

    /// Whether the game is dropped.
    pub fn skip(&self) -> (skip: bool)
        ensures
            skip == self@.skip,
    {
        self.skip
    }

    /// The mean of the two ratings, rounded down.
    pub fn average_rating(&self) -> (rating: i16)
        ensures
            rating == self@.average_rating(),
            0 <= rating,
    {
        proof {
            use_type_invariant(self);
        }
        let sum: i32 = self.white_elo as i32 + self.black_elo as i32;
        (sum / 2) as i16
    }

    /// The probability with which the game is kept.
    pub fn probability(&self) -> (p: Probability)
        ensures
            p@ == self@.probability(),
    {
        probability(self.time_control, self.average_rating())
    }
}

} // verus!
