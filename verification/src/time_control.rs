//! Speed classes of games, derived from the declared time control.

use crate::decimal::{parse_u64, unsigned_decimal, MINUS, PLUS};
use btoi::ParseIntegerError;
use vstd::prelude::*;
use vstd::slice::slice_subrange;

verus! {

/// The speed class of a game.
#[derive(Clone, Copy, Debug, PartialEq, Eq, Structural)]
pub enum TimeControl {
    UltraBullet,
    Bullet,
    Blitz,
    Classical,
    Correspondence,
}

/// A declared time control that is neither `-` nor `<seconds>+<increment>`.
#[derive(Clone, Copy, Debug, PartialEq, Eq, Structural)]
pub struct TimeControlError {}

impl From<ParseIntegerError> for TimeControlError {
    fn from(_error: ParseIntegerError) -> (r: TimeControlError) {
        TimeControlError {  }
    }
}

impl vstd::std_specs::convert::FromSpecImpl<ParseIntegerError> for TimeControlError {
    open spec fn obeys_from_spec() -> bool {
        true
    }

    open spec fn from_spec(_error: ParseIntegerError) -> TimeControlError {
        TimeControlError {  }
    }
}

/// The number of moves over which the increment is counted.
pub const MOVES_PER_GAME: u64 = 40;

/// The estimated duration of a game, in seconds: the base clock plus the
/// increment of 40 moves.
pub open spec fn effective_seconds(seconds: int, increment: int) -> int {
    seconds + MOVES_PER_GAME * increment
}

/// The speed class of a game of the given estimated duration. The classes are
/// half-open ranges of seconds, the fastest first.
pub open spec fn bucket_of(effective: int) -> TimeControl {
    if effective < 30 {
        TimeControl::UltraBullet
    } else if effective < 180 {
        TimeControl::Bullet
    } else if effective < 480 {
        TimeControl::Blitz
    } else if effective < 21600 {
        TimeControl::Classical
    } else {
        TimeControl::Correspondence
    }
}

/// `bytes` is the one byte `-`, which declares a game without a clock.
pub open spec fn is_unlimited(bytes: Seq<u8>) -> bool {
    bytes.len() == 1 && bytes[0] == MINUS
}

/// `bytes` is `<seconds>+<increment>` with the `+` at index `at`: an unsigned
/// decimal numeral on either side, each within 64 bits.
pub open spec fn splits_at(bytes: Seq<u8>, at: int) -> bool {
    &&& 0 <= at < bytes.len()
    &&& bytes[at] == PLUS
    &&& unsigned_decimal(bytes.take(at)) matches Some(seconds) && seconds <= u64::MAX
    &&& unsigned_decimal(bytes.skip(at + 1)) matches Some(increment) && increment <= u64::MAX
}

/// The speed class that a declared time control stands for, or `None` where
/// the declaration is malformed.
pub open spec fn time_control_of(bytes: Seq<u8>) -> Option<TimeControl> {
    if is_unlimited(bytes) {
        Some(TimeControl::Correspondence)
    } else if exists|at: int| splits_at(bytes, at) {
        let at = choose|at: int| splits_at(bytes, at);
        Some(
            bucket_of(
                effective_seconds(
                    unsigned_decimal(bytes.take(at)).unwrap() as int,
                    unsigned_decimal(bytes.skip(at + 1)).unwrap() as int,
                ),
            ),
        )
    } else {
        None
    }
}

/// `outcome` is what classifying `bytes` has to return.
pub open spec fn classifies(bytes: Seq<u8>, outcome: Result<TimeControl, TimeControlError>) -> bool {
    match outcome {
        Ok(time_control) => time_control_of(bytes) == Some(time_control),
        Err(_) => time_control_of(bytes) is None,
    }
}

/// A declaration splits at one place at most: the numeral before the `+`
/// holds no `+`, and neither does the one behind it.
pub proof fn lemma_split_is_unique(bytes: Seq<u8>, first: int, second: int)
    requires
        splits_at(bytes, first),
        splits_at(bytes, second),
    ensures
        first == second,
{
    if first < second {
        assert(bytes.take(second)[first] == bytes[first]);
    } else if second < first {
        assert(bytes.take(first)[second] == bytes[second]);
    }
}

/// Every duration falls in exactly one class, and the class says in which
/// range of seconds the duration lies. A duration on a boundary belongs to the
/// slower class.
pub proof fn lemma_buckets_partition_durations(effective: int)
    ensures
        bucket_of(effective) == TimeControl::UltraBullet <==> effective < 30,
        bucket_of(effective) == TimeControl::Bullet <==> 30 <= effective < 180,
        bucket_of(effective) == TimeControl::Blitz <==> 180 <= effective < 480,
        bucket_of(effective) == TimeControl::Classical <==> 480 <= effective < 21600,
        bucket_of(effective) == TimeControl::Correspondence <==> 21600 <= effective,
{
}

/// Classifying is repeatable: two outcomes for the same bytes are the same
/// outcome, since the bytes alone decide it.
pub proof fn lemma_classification_is_repeatable(
    bytes: Seq<u8>,
    first: Result<TimeControl, TimeControlError>,
    second: Result<TimeControl, TimeControlError>,
)
    requires
        classifies(bytes, first),
        classifies(bytes, second),
    ensures
        first == second,
{
    if let (Err(a), Err(b)) = (first, second) {
        assert(a == TimeControlError {  } && b == TimeControlError {  });
    }
}

impl TimeControl {
    /// Classifies a game by its base clock and its increment per move, both in
    /// seconds. The sum is taken over the integers: no pair of inputs is too
    /// large.
    pub fn from_seconds_and_increment(seconds: u64, increment: u64) -> (tc: TimeControl)
        ensures
            tc == bucket_of(effective_seconds(seconds as int, increment as int)),
    {
        if increment >= 540 || seconds >= 21600 {
            return TimeControl::Correspondence;
        }
        let total: u64 = seconds + MOVES_PER_GAME * increment;
        if total < 30 {
            TimeControl::UltraBullet
        } else if total < 180 {
            TimeControl::Bullet
        } else if total < 480 {
            TimeControl::Blitz
        } else if total < 21600 {
            TimeControl::Classical
        } else {
            TimeControl::Correspondence
        }
    }

    /// Classifies a game by its declared time control: `-` for a game
    /// without a clock, else `<seconds>+<increment>`. Anything else is an
    /// error, and so is a number that does not fit in 64 bits.
    pub fn from_bytes(bytes: &[u8]) -> (r: Result<TimeControl, TimeControlError>)
        ensures
            classifies(bytes@, r),
    {
        if bytes.len() == 1 && bytes[0] == MINUS {
            return Ok(TimeControl::Correspondence);
        }
        let mut at: usize = 0;
        while at < bytes.len() && bytes[at] != PLUS
            invariant
                at <= bytes.len(),
                forall|i: int| 0 <= i < at ==> bytes@[i] != PLUS,
            decreases bytes.len() - at,
        {
            at += 1;
        }
        proof {
            // No split lies anywhere but at the first `+`.
            assert forall|other: int| splits_at(bytes@, other) implies other == at by {
                if other < at {
                    assert(bytes@[other] != PLUS);
                } else if at < other {
                    assert(bytes@.take(other)[at as int] == bytes@[at as int]);
                }
            }
        }
        if at == bytes.len() {
            return Err(TimeControlError {  });
        }
        let seconds = match parse_u64(slice_subrange(bytes, 0, at)) {
            Ok(seconds) => seconds,
            Err(error) => {
                return Err(TimeControlError::from(error));
            },
        };
        let increment = match parse_u64(slice_subrange(bytes, at + 1, bytes.len())) {
            Ok(increment) => increment,
            Err(error) => {
                return Err(TimeControlError::from(error));
            },
        };
        proof {
            assert(bytes@.take(at as int) == bytes@.subrange(0, at as int));
            assert(bytes@.skip(at + 1) == bytes@.subrange(at + 1, bytes@.len() as int));
            assert(splits_at(bytes@, at as int));
        }
        Ok(TimeControl::from_seconds_and_increment(seconds, increment))
    }
}

} // verus!
