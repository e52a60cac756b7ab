use vstd::prelude::*;

verus! {

/// The bit pattern of the value 1500.0, the starting rating.
pub const DEFAULT_RATING_BITS: u64 = 0x4097700000000000;

/// The bit pattern of the value 350.0, the starting rating deviation and the
/// ceiling that the deviation of an idle player relaxes toward.
pub const DEFAULT_DEVIATION_BITS: u64 = 0x4075E00000000000;

/// The bit pattern of the value 0.06, the starting volatility.
pub const DEFAULT_VOLATILITY_BITS: u64 = 0x3FAEB851EB851EB8;

#[verifier::external_type_specification]
#[verifier::external_body]
pub struct ExGlicko2Rating(skillratings::glicko2::Glicko2Rating);

/// A player's Glicko-2 rating triple on the external, 1500-centered scale.
///
/// The triple itself lives in `value`, which this library treats as opaque.
/// Beside it stand the IEEE-754 bit patterns of its three components, so
/// that contracts and callers can name, store and compare the components as
/// plain integers. The fields are private: every constructor of this type
/// records the bit patterns of exactly the components held in `value`, and
/// nothing else can pull the two apart.
#[derive(Clone, Copy, Debug)]
pub struct Rating {
    value: skillratings::glicko2::Glicko2Rating,
    rating_bits: u64,
    deviation_bits: u64,
    volatility_bits: u64,
}

impl Rating {
    /// The bit patterns of the triple's components, in the order rating,
    /// deviation, volatility: the mathematical stand-in for the triple in
    /// every contract of this library.
    pub closed spec fn bits(self) -> (u64, u64, u64) {
        (self.rating_bits, self.deviation_bits, self.volatility_bits)
    }

    /// Relies on `f64::to_bits`: stores the given triple and records the bit
    /// patterns of its components.
    #[verifier::external_body]
    pub fn from_value(value: skillratings::glicko2::Glicko2Rating) -> (r: Rating) {
        Rating {
            value,
            rating_bits: value.rating.to_bits(),
            deviation_bits: value.deviation.to_bits(),
            volatility_bits: value.volatility.to_bits(),
        }
    }

    /// Relies on `skillratings::glicko2::Glicko2Rating::new` and
    /// `f64::to_bits`: the default triple is 1500.0 / 350.0 / 0.06, and the
    /// three constants above are the bit patterns of those three values.
    #[verifier::external_body]
    pub fn default_rating() -> (r: Rating)
        ensures
            r.bits() == (DEFAULT_RATING_BITS, DEFAULT_DEVIATION_BITS, DEFAULT_VOLATILITY_BITS),
    {
        Rating::from_value(skillratings::glicko2::Glicko2Rating::new())
    }

    /// The stored triple, for callers that persist or display it.
    pub fn value(&self) -> skillratings::glicko2::Glicko2Rating {
        self.value
    }

    /// Bit pattern of the rating value.
    pub fn rating_bits(&self) -> (b: u64)
        ensures
            b == self.bits().0,
    {
        self.rating_bits
    }

    /// Bit pattern of the rating deviation.
    pub fn deviation_bits(&self) -> (b: u64)
        ensures
            b == self.bits().1,
    {
        self.deviation_bits
    }

    /// Bit pattern of the volatility.
    pub fn volatility_bits(&self) -> (b: u64)
        ensures
            b == self.bits().2,
    {
        self.volatility_bits
    }
}

/// The posterior rating triple (as bit patterns) that one Glicko-2
/// rating-period update produces from a prior triple and the player's
/// ordered list of unit games, each the opponent's pre-period triple paired
/// with the outcome from the player's perspective (`true` = win).
pub uninterp spec fn glicko2_update(
    prior: (u64, u64, u64),
    games: Seq<((u64, u64, u64), bool)>,
) -> (u64, u64, u64);

/// The bit patterns of a game list, pairing each opponent triple's bits with
/// the outcome.
pub open spec fn games_bits(games: Seq<(Rating, bool)>) -> Seq<((u64, u64, u64), bool)> {
    games.map_values(|g: (Rating, bool)| (g.0.bits(), g.1))
}

/// Relies on `skillratings::glicko2::glicko2_rating_period` with the default
/// configuration (tau 0.5, convergence tolerance 1e-6):
/// - the posterior triple is a function of the prior triple and the game
///   list alone, named `glicko2_update` here;
/// - on an empty game list its source copies the prior rating and the prior
///   volatility unchanged into the result, and caps the relaxed deviation
///   with `.min(350.0)`; the capped value is never negative, and on
///   non-negative values `f64::to_bits` is monotone, so the deviation's bit
///   pattern is at most that of 350.0.
#[verifier::external_body]
pub(crate) fn rate_period_call(prior: &Rating, games: &Vec<(Rating, bool)>) -> (r: Rating)
    ensures
        r.bits() == glicko2_update(prior.bits(), games_bits(games@)),
        games@.len() == 0 ==> r.bits().0 == prior.bits().0
            && r.bits().2 == prior.bits().2
            && r.bits().1 <= DEFAULT_DEVIATION_BITS,
{
    let gs: Vec<(skillratings::glicko2::Glicko2Rating, skillratings::Outcomes)> = games
        .iter()
        .map(|g| (
            g.0.value,
            if g.1 { skillratings::Outcomes::WIN } else { skillratings::Outcomes::LOSS },
        ))
        .collect();
    Rating::from_value(skillratings::glicko2::glicko2_rating_period(
        &prior.value,
        &gs,
        &skillratings::glicko2::Glicko2Config::new(),
    ))
}

} // verus!
