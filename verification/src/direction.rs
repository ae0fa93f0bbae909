use vstd::prelude::*;

verus! {

/// Direction of the mid-price over the prediction horizon.
#[derive(Clone, Copy, Debug, PartialEq, Eq, Structural)]
pub enum PriceDirection {
    Up,
    Down,
    Stationary,
}

/// The class that the prediction head chooses, given how the three class
/// probabilities compare: a class wins only when its probability is strictly
/// greater than both others, `Up` is tested before `Down`, and when neither
/// wins (a tie, or an incomparable value) the answer is `Stationary`.
pub open spec fn chosen_direction(
    up_over_down: bool,
    up_over_stationary: bool,
    down_over_up: bool,
    down_over_stationary: bool,
) -> PriceDirection {
    if up_over_down && up_over_stationary {
        PriceDirection::Up
    } else if down_over_up && down_over_stationary {
        PriceDirection::Down
    } else {
        PriceDirection::Stationary
    }
}

impl PriceDirection {
    /// Chooses the direction from the strict comparisons of the class
    /// probabilities `p_up`, `p_down`, `p_stationary`: `up_over_down` is
    /// `p_up > p_down`, `up_over_stationary` is `p_up > p_stationary`,
    /// `down_over_up` is `p_down > p_up` and `down_over_stationary` is
    /// `p_down > p_stationary`.
    pub fn from_comparisons(
        up_over_down: bool,
        up_over_stationary: bool,
        down_over_up: bool,
        down_over_stationary: bool,
    ) -> (dir: PriceDirection)
        ensures
            dir == chosen_direction(
                up_over_down,
                up_over_stationary,
                down_over_up,
                down_over_stationary,
            ),
            dir == PriceDirection::Up <==> (up_over_down && up_over_stationary),
            dir == PriceDirection::Down <==> (!(up_over_down && up_over_stationary) && down_over_up
                && down_over_stationary),
            dir == PriceDirection::Stationary <==> (!(up_over_down && up_over_stationary) && !(
            down_over_up && down_over_stationary)),
    {
        if up_over_down && up_over_stationary {
            PriceDirection::Up
        } else if down_over_up && down_over_stationary {
            PriceDirection::Down
        } else {
            PriceDirection::Stationary
        }
    }
}

/// When the comparisons come from a strict order (no two classes each
/// strictly greater than the other), the head answers `Up` exactly when up
/// is strictly the most probable class, `Down` exactly when down is, and
/// `Stationary` in every other case, ties included.
pub proof fn lemma_direction_is_strict_winner(
    up_over_down: bool,
    up_over_stationary: bool,
    down_over_up: bool,
    down_over_stationary: bool,
)
    requires
        !(up_over_down && down_over_up),
    ensures
        ({
            let dir = chosen_direction(
                up_over_down,
                up_over_stationary,
                down_over_up,
                down_over_stationary,
            );
            &&& (dir == PriceDirection::Up <==> up_over_down && up_over_stationary)
            &&& (dir == PriceDirection::Down <==> down_over_up && down_over_stationary)
            &&& (dir == PriceDirection::Stationary <==> !(up_over_down && up_over_stationary)
                && !(down_over_up && down_over_stationary))
        }),
{
}

} // verus!
