//! The four headings of the instruction pointer, and how one is drawn.

use rand::rngs::OsRng;
use rand::rngs::StdRng;
use rand::RngCore;
use rand::SeedableRng;
use vstd::prelude::*;

verus! {

/// A heading of the instruction pointer.
#[derive(Copy, Clone, PartialEq, Eq, Hash, Debug, Structural)]
pub enum Direction {
    Up,
    Down,
    Left,
    Right,
}

impl Direction {
    /// Whether the heading moves the pointer along its row.
    pub open spec fn spec_is_horizontal(self) -> bool {
        self == Direction::Left || self == Direction::Right
    }

    /// Whether the heading moves the pointer along its row.
    #[verifier::when_used_as_spec(spec_is_horizontal)]
    pub fn is_horizontal(self) -> (r: bool)
        ensures
            r == self.spec_is_horizontal(),
    {
        match self {
            Direction::Left | Direction::Right => true,
            Direction::Up | Direction::Down => false,
        }
    }

    /// The heading that a number selects: its remainder by four, in the
    /// order `Up`, `Down`, `Left`, `Right`.
    pub open spec fn spec_from_index(index: u32) -> Direction {
        if index % 4 == 0 {
            Direction::Up
        } else if index % 4 == 1 {
            Direction::Down
        } else if index % 4 == 2 {
            Direction::Left
        } else {
            Direction::Right
        }
    }

    /// The heading that a number selects.
    #[verifier::when_used_as_spec(spec_from_index)]
    pub fn from_index(index: u32) -> (d: Direction)
        ensures
            d == Direction::spec_from_index(index),
    {
        let r: u32 = index % 4;
        if r == 0 {
            Direction::Up
        } else if r == 1 {
            Direction::Down
        } else if r == 2 {
            Direction::Left
        } else {
            Direction::Right
        }
    }
}

/// `rand::rngs::StdRng`, the pseudo-random generator that an interpreter
/// owns. Its state is not visible to the verifier.
#[verifier::external_type_specification]
#[verifier::external_body]
pub struct ExStdRng(StdRng);

/// `SeedableRng::seed_from_u64` on `StdRng`: a generator whose sequence
/// the seed fixes. Nothing is claimed of the sequence.
#[verifier::external_body]
pub(crate) fn rng_from_seed(seed: u64) -> StdRng {
    StdRng::seed_from_u64(seed)
}

/// `SeedableRng::from_rng` on `StdRng`, fed by `OsRng`: a generator seeded
/// by the operating system, or `None` where that gives no entropy.
#[verifier::external_body]
pub(crate) fn rng_from_os() -> Option<StdRng> {
    StdRng::from_rng(OsRng).ok()
}

/// `RngCore::next_u32` on `StdRng`: the generator's next number. Nothing
/// is claimed of its value.
#[verifier::external_body]
pub(crate) fn rng_next_u32(rng: &mut StdRng) -> u32 {
    rng.next_u32()
}

/// A generator seeded by the operating system. Where that gives no
/// entropy, the generator starts from the seed zero.
pub(crate) fn fresh_rng() -> StdRng {
    match rng_from_os() {
        Some(rng) => rng,
        None => rng_from_seed(0),
    }
}

/// Draws one of the four headings, each for a quarter of the generator's
/// numbers.
pub(crate) fn random_direction(rng: &mut StdRng) -> Direction {
    let n: u32 = rng_next_u32(rng);
    Direction::from_index(n)
}

} // verus!
