//! Discrete gameplay events and the audio cues their processing triggers.

use vstd::prelude::*;

verus! {

/// A discrete gameplay event. Events are value types with no identity beyond
/// their payload; they live in the world's frame-scoped queue until the event
/// system drains it.
#[derive(Clone, Copy, Debug, PartialEq, Eq, Structural)]
pub enum Event {
    /// The player tried to walk into a wall or an unmovable pile of boxes.
    PlayerHitObstacle,
    /// The entity with the given id was moved onto a new grid cell.
    EntityMoved { id: usize },
    /// A box came to rest exactly on a box spot; `is_correct_spot` says
    /// whether the colors match.
    BoxPlacedOnSpot { is_correct_spot: bool },
}

/// A logical audio cue the event system asks the host to play. The host maps
/// each cue to an actual sound asset; a failed lookup there is non-fatal.
#[derive(Clone, Copy, Debug, PartialEq, Eq, Structural)]
pub enum Sound {
    /// Played when the player hits an obstacle.
    Wall,
    /// Played when a box lands on a spot of its own color.
    Correct,
    /// Played when a box lands on a spot of another color.
    Incorrect,
}

impl Sound {
    /// The logical name under which the audio collaborator knows this cue.
    pub fn logical_name(&self) -> (r: &'static str)
        ensures
            *self == Sound::Wall ==> r@ == "wall"@,
            *self == Sound::Correct ==> r@ == "correct"@,
            *self == Sound::Incorrect ==> r@ == "incorrect"@,
    {
        match self {
            Sound::Wall => "wall",
            Sound::Correct => "correct",
            Sound::Incorrect => "incorrect",
        }
    }
}

} // verus!
