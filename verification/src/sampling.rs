//! The retention policy: which share of the games of a speed class and
//! rating is kept, and how one random draw decides on a single game.

use crate::time_control::TimeControl;
use vstd::prelude::*;

verus! {

/// A fraction of two natural numbers.
pub struct Ratio {
    pub num: nat,
    pub den: nat,
}

impl Ratio {
    /// The fraction is defined and lies between 0 and 1, both included.
    pub open spec fn is_probability(self) -> bool {
        0 < self.den && self.num <= self.den
    }

    /// The fraction is 1.
    pub open spec fn is_certain(self) -> bool {
        0 < self.den && self.num == self.den
    }

    /// The fraction is 0.
    pub open spec fn is_impossible(self) -> bool {
        0 < self.den && self.num == 0
    }

    /// `self` is at most `other`, for fractions with positive denominators.
    pub open spec fn le(self, other: Ratio) -> bool {
        self.num * other.den <= other.num * self.den
    }
}

/// A probability as an exact fraction. The denominator is positive and the
/// numerator does not exceed it.
#[derive(Clone, Copy, Debug)]
pub struct Probability {
    numerator: u32,
    denominator: u32,
}

impl View for Probability {
    type V = Ratio;

    closed spec fn view(&self) -> Ratio {
        Ratio { num: self.numerator as nat, den: self.denominator as nat }
    }
}

/// The number of values that a draw can take. A draw `d` stands for the real
/// number `d / DRAW_RANGE`, which lies in `[0, 1)`.
pub const DRAW_RANGE: u128 = 0x1_0000_0000_0000_0000;

/// The share of games that is kept, by speed class and by the average rating
/// of the two players. For each class the first threshold that the rating
/// reaches decides.
pub open spec fn retention(time_control: TimeControl, rating: int) -> Ratio {
    match time_control {
        TimeControl::Correspondence => Ratio { num: 1, den: 1 },
        TimeControl::Classical => if rating >= 2000 {
            Ratio { num: 1, den: 1 }
        } else if rating >= 1800 {
            Ratio { num: 2, den: 5 }
        } else {
            Ratio { num: 1, den: 8 }
        },
        TimeControl::Blitz => if rating >= 2000 {
            Ratio { num: 1, den: 1 }
        } else if rating >= 1800 {
            Ratio { num: 1, den: 4 }
        } else {
            Ratio { num: 1, den: 15 }
        },
        TimeControl::Bullet => if rating >= 2300 {
            Ratio { num: 1, den: 1 }
        } else if rating >= 2200 {
            Ratio { num: 4, den: 5 }
        } else if rating >= 2000 {
            Ratio { num: 1, den: 4 }
        } else if rating >= 1800 {
            Ratio { num: 1, den: 7 }
        } else {
            Ratio { num: 1, den: 20 }
        },
        TimeControl::UltraBullet => Ratio { num: 1, den: 20 },
    }
}

/// A game is kept where its draw, read as a number in `[0, 1)`, is below the
/// probability: `draw / DRAW_RANGE < num / den`.
pub open spec fn accepts(probability: Ratio, draw: nat) -> bool {
    draw * probability.den < probability.num * DRAW_RANGE
}

/// The policy is total: it gives a probability for every class and every
/// rating, a negative one too.
pub proof fn lemma_retention_is_probability(time_control: TimeControl, rating: int)
    ensures
        retention(time_control, rating).is_probability(),
{
}

/// A game without a clock is always kept, whatever the rating.
pub proof fn lemma_correspondence_is_certain(rating: int)
    ensures
        retention(TimeControl::Correspondence, rating) == (Ratio { num: 1, den: 1 }),
        retention(TimeControl::Correspondence, rating).is_certain(),
        forall|draw: nat|
            draw < DRAW_RANGE ==> accepts(retention(TimeControl::Correspondence, rating), draw),
{
    assert forall|draw: nat| draw < DRAW_RANGE implies accepts(
        retention(TimeControl::Correspondence, rating),
        draw,
    ) by {
        lemma_certain_accepts_every_draw(retention(TimeControl::Correspondence, rating), draw);
    }
}

/// Within a speed class, a higher rating is never kept less often.
pub proof fn lemma_retention_grows_with_rating(time_control: TimeControl, lower: int, higher: int)
    requires
        lower <= higher,
    ensures
        retention(time_control, lower).le(retention(time_control, higher)),
{
    let low = retention(time_control, lower);
    let high = retention(time_control, higher);
    if low == high {
        assert(low.num * high.den == high.num * low.den);
    } else if high.num == 1 && high.den == 1 {
        assert(low.num * 1 <= 1 * low.den);
    } else if low.num == 1 {
        // Below the top threshold the numerators do not fall and the
        // denominators do not grow.
        assert(1 * high.den <= high.num * low.den);
    }
}

/// Probability 1 keeps the game on every draw.
pub proof fn lemma_certain_accepts_every_draw(probability: Ratio, draw: nat)
    requires
        probability.is_certain(),
        draw < DRAW_RANGE,
    ensures
        accepts(probability, draw),
{
    assert(draw * probability.den < DRAW_RANGE * probability.den) by (nonlinear_arith)
        requires
            draw < DRAW_RANGE,
            0 < probability.den,
    ;
    assert(DRAW_RANGE * probability.den == probability.den * DRAW_RANGE) by (nonlinear_arith);
}

/// Probability 0 drops the game on every draw.
pub proof fn lemma_impossible_accepts_no_draw(probability: Ratio, draw: nat)
    requires
        probability.is_impossible(),
    ensures
        !accepts(probability, draw),
{
    assert(draw * probability.den >= 0) by (nonlinear_arith);
}

/// The decision is a threshold on the draw: a game that is kept on some draw
/// is kept on every lower one.
pub proof fn lemma_lower_draw_is_accepted(probability: Ratio, lower: nat, higher: nat)
    requires
        lower <= higher,
        accepts(probability, higher),
    ensures
        accepts(probability, lower),
{
    assert(lower * probability.den <= higher * probability.den) by (nonlinear_arith)
        requires
            lower <= higher,
    ;
}

/// A draw that keeps a game at some probability keeps it at every higher one.
pub proof fn lemma_higher_probability_accepts(lower: Ratio, higher: Ratio, draw: nat)
    requires
        lower.is_probability(),
        higher.is_probability(),
        lower.le(higher),
        accepts(lower, draw),
    ensures
        accepts(higher, draw),
{
    let range = DRAW_RANGE as nat;
    // draw * ld < ln * R and ln * hd <= hn * ld give draw * hd < hn * R.
    assert(draw * lower.den * higher.den < lower.num * range * higher.den) by (nonlinear_arith)
        requires
            draw * lower.den < lower.num * range,
            0 < higher.den,
    ;
    assert(lower.num * range * higher.den <= higher.num * range * lower.den) by (nonlinear_arith)
        requires
            lower.num * higher.den <= higher.num * lower.den,
    ;
    assert(draw * higher.den < higher.num * range) by (nonlinear_arith)
        requires
            draw * lower.den * higher.den < higher.num * range * lower.den,
            0 < lower.den,
    ;
}

impl Probability {
    #[verifier::type_invariant]
    spec fn well_formed(self) -> bool {
        0 < self.denominator && self.numerator <= self.denominator
    }

    /// The probability `numerator / denominator`, where that is one: `None`
    /// for a zero denominator and for a fraction above 1.
    pub fn new(numerator: u32, denominator: u32) -> (r: Option<Probability>)
        ensures
            r is Some <==> (Ratio { num: numerator as nat, den: denominator as nat }).is_probability(),
            r matches Some(p) ==> p@ == (Ratio { num: numerator as nat, den: denominator as nat }),
    {
        if 0 < denominator && numerator <= denominator {
            Some(Probability { numerator, denominator })
        } else {
            None
        }
    }

    /// The numerator of the fraction.
    pub fn numerator(&self) -> (n: u32)
        ensures
            n == self@.num,
            self@.is_probability(),
    {
        proof {
            use_type_invariant(self);
        }
        self.numerator
    }

    /// The denominator of the fraction, which is positive.
    pub fn denominator(&self) -> (d: u32)
        ensures
            d == self@.den,
            self@.is_probability(),
    {
        proof {
            use_type_invariant(self);
        }
        self.denominator
    }
}

/// The probability with which a game of the given speed class and average
/// rating is kept.
pub fn probability(time_control: TimeControl, rating: i16) -> (p: Probability)
    ensures
        p@ == retention(time_control, rating as int),
{
    let (numerator, denominator): (u32, u32) = match time_control {
        TimeControl::Correspondence => (1, 1),
        TimeControl::Classical => if rating >= 2000 {
            (1, 1)
        } else if rating >= 1800 {
            (2, 5)
        } else {
            (1, 8)
        },
        TimeControl::Blitz => if rating >= 2000 {
            (1, 1)
        } else if rating >= 1800 {
            (1, 4)
        } else {
            (1, 15)
        },
        TimeControl::Bullet => if rating >= 2300 {
            (1, 1)
        } else if rating >= 2200 {
            (4, 5)
        } else if rating >= 2000 {
            (1, 4)
        } else if rating >= 1800 {
            (1, 7)
        } else {
            (1, 20)
        },
        TimeControl::UltraBullet => (1, 20),
    };
    Probability { numerator, denominator }
}

/// Decides on one game from its probability and its draw: the game is kept
/// where the draw, read as a number in `[0, 1)`, is below the probability.
pub fn decide(probability: Probability, draw: u64) -> (accept: bool)
    ensures
        accept == accepts(probability@, draw as nat),
        probability@.is_certain() ==> accept,
        probability@.is_impossible() ==> !accept,
{
    proof {
        use_type_invariant(probability);
        if probability@.is_certain() {
            lemma_certain_accepts_every_draw(probability@, draw as nat);
        }
        if probability@.is_impossible() {
            lemma_impossible_accepts_no_draw(probability@, draw as nat);
        }
        assert(draw * probability.denominator <= 0xffff_ffff_ffff_ffff * 0xffff_ffff)
            by (nonlinear_arith)
            requires
                draw <= 0xffff_ffff_ffff_ffff,
                probability.denominator <= 0xffff_ffff,
        ;
        assert(probability.numerator * DRAW_RANGE <= 0xffff_ffff * 0x1_0000_0000_0000_0000)
            by (nonlinear_arith)
            requires
                probability.numerator <= 0xffff_ffff,
                DRAW_RANGE == 0x1_0000_0000_0000_0000,
        ;
    }
    let scaled_draw: u128 = (draw as u128) * (probability.denominator as u128);
    let scaled_share: u128 = (probability.numerator as u128) * DRAW_RANGE;
    scaled_draw < scaled_share
}

/// Calls `rand::random` for a `u64`, which takes the next value of the
/// thread's generator. Read as `draw / DRAW_RANGE` it is a sample of `[0, 1)`.
///
/// Trusted: nothing is claimed of the value. The generator is seeded from
/// the system on its first use.
#[verifier::external_body]
pub(crate) fn random_draw() -> (draw: u64) {
    rand::random::<u64>()
}

} // verus!
