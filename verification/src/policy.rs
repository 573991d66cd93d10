//! The exploration schedule and epsilon-greedy action selection.
//!
//! Probabilities are counted in millionths: a rate `r` stands for `r / 10^6`.

use crate::random::random_below;
use vstd::arithmetic::div_mod::{lemma_div_is_ordered, lemma_div_multiples_vanish};
use vstd::arithmetic::mul::{lemma_mul_inequality, lemma_mul_upper_bound};
use vstd::prelude::*;
use vstd::set_lib::{lemma_int_range, set_int_range};

verus! {

/// The rate that stands for probability one.
pub const RATE_ONE: u32 = 1_000_000;

/// Length of the exploration phase in millionths of a step: the fraction of
/// the total that exploration decays over.
pub open spec fn exploration_horizon(total_time_steps: int, exploration_fraction: int) -> int {
    exploration_fraction * total_time_steps
}

/// The exploration rate at a step: it falls linearly from one at step zero
/// to `final_epsilon` at the end of the exploration phase and stays there.
/// Between two millionths the rate is rounded up.
pub open spec fn epsilon_at(
    step: int,
    total_time_steps: int,
    exploration_fraction: int,
    final_epsilon: int,
) -> int {
    let horizon = exploration_horizon(total_time_steps, exploration_fraction);
    let elapsed = step * RATE_ONE;
    if elapsed >= horizon {
        final_epsilon
    } else {
        RATE_ONE - (elapsed * (RATE_ONE - final_epsilon)) / horizon
    }
}

/// At step zero the agent always explores, if the exploration phase has any
/// length at all.
pub proof fn lemma_epsilon_starts_at_one(
    total_time_steps: int,
    exploration_fraction: int,
    final_epsilon: int,
)
    requires
        exploration_horizon(total_time_steps, exploration_fraction) > 0,
    ensures
        epsilon_at(0, total_time_steps, exploration_fraction, final_epsilon) == RATE_ONE,
{
}

/// From the end of the exploration phase on, the rate is the final one.
pub proof fn lemma_epsilon_ends_at_final(
    step: int,
    total_time_steps: int,
    exploration_fraction: int,
    final_epsilon: int,
)
    requires
        step * RATE_ONE >= exploration_horizon(total_time_steps, exploration_fraction),
    ensures
        epsilon_at(step, total_time_steps, exploration_fraction, final_epsilon) == final_epsilon,
{
}

/// The rate never leaves the range from the final rate to one.
pub proof fn lemma_epsilon_in_range(
    step: int,
    total_time_steps: int,
    exploration_fraction: int,
    final_epsilon: int,
)
    requires
        0 <= step,
        0 <= final_epsilon <= RATE_ONE,
    ensures
        final_epsilon <= epsilon_at(step, total_time_steps, exploration_fraction, final_epsilon)
            <= RATE_ONE,
{
    let horizon = exploration_horizon(total_time_steps, exploration_fraction);
    let elapsed = step * RATE_ONE;
    let span = RATE_ONE - final_epsilon;
    if elapsed < horizon {
        lemma_mul_inequality(elapsed, horizon, span);
        lemma_div_is_ordered(elapsed * span, horizon * span, horizon);
        assert(horizon * span == span * horizon) by (nonlinear_arith);
        lemma_div_multiples_vanish(span, horizon);
        assert(elapsed * span >= 0) by (nonlinear_arith)
            requires
                elapsed >= 0,
                span >= 0,
        ;
        lemma_div_is_ordered(0, elapsed * span, horizon);
    }
}

/// The rate never rises from one step to a later one.
pub proof fn lemma_epsilon_non_increasing(
    earlier: int,
    later: int,
    total_time_steps: int,
    exploration_fraction: int,
    final_epsilon: int,
)
    requires
        0 <= earlier <= later,
        0 <= final_epsilon <= RATE_ONE,
    ensures
        epsilon_at(later, total_time_steps, exploration_fraction, final_epsilon) <= epsilon_at(
            earlier,
            total_time_steps,
            exploration_fraction,
            final_epsilon,
        ),
{
    let horizon = exploration_horizon(total_time_steps, exploration_fraction);
    let span = RATE_ONE - final_epsilon;
    lemma_epsilon_in_range(earlier, total_time_steps, exploration_fraction, final_epsilon);
    if later * RATE_ONE < horizon {
        lemma_mul_inequality(earlier * RATE_ONE, later * RATE_ONE, span);
        lemma_div_is_ordered(earlier * RATE_ONE * span, later * RATE_ONE * span, horizon);
    }
}

/// The draws from `0..RATE_ONE` that mean exploring at a given rate.
pub open spec fn exploring_draws(rate: int) -> Set<int> {
    Set::new(|draw: int| 0 <= draw < RATE_ONE && draw < rate)
}

/// Of the million draws that are possible, as many mean exploring as the
/// rate says: a uniform draw explores with the probability that the rate
/// stands for.
pub proof fn lemma_share_of_exploring_draws(rate: int)
    requires
        0 <= rate <= RATE_ONE,
    ensures
        exploring_draws(rate).finite(),
        exploring_draws(rate).len() == rate,
{
    lemma_int_range(0, rate);
    assert(exploring_draws(rate) =~= set_int_range(0, rate));
}

/// How the next action is found.
#[derive(Clone, Copy, Debug, PartialEq, Eq, Structural)]
pub enum ActionChoice {
    /// Play this action, drawn uniformly from the action space.
    Random(usize),
    /// Play the action that the model values highest for the observation.
    Greedy,
}

/// The behaviour policy: explores with its current rate, else follows the
/// model.
#[derive(Clone, Copy, Debug)]
pub struct Policy {
    exploration_rate: u32,
}

impl Policy {
    /// The current exploration rate, in millionths.
    pub closed spec fn rate(&self) -> u32 {
        self.exploration_rate
    }

    /// A policy that always explores.
    pub fn new() -> (policy: Self)
        ensures
            policy.rate() == RATE_ONE,
    {
        Policy { exploration_rate: RATE_ONE }
    }

    pub fn exploration_rate(&self) -> (rate: u32)
        ensures
            rate == self.rate(),
    {
        self.exploration_rate
    }

    /// The policy after a training update at the given step: its rate is the
    /// scheduled one.
    pub fn update(
        self,
        current_time_step: usize,
        total_time_steps: usize,
        exploration_fraction: u32,
        exploration_final_epsilon: u32,
    ) -> (policy: Self)
        requires
            exploration_final_epsilon <= RATE_ONE,
        ensures
            policy.rate() == epsilon_at(
                current_time_step as int,
                total_time_steps as int,
                exploration_fraction as int,
                exploration_final_epsilon as int,
            ),
            exploration_final_epsilon <= policy.rate() <= RATE_ONE,
    {
        assert(exploration_fraction * total_time_steps <= 0xffff_ffff * 0xffff_ffff_ffff_ffff)
            by (nonlinear_arith)
            requires
                0 <= exploration_fraction <= 0xffff_ffff,
                0 <= total_time_steps <= 0xffff_ffff_ffff_ffff,
        ;
        let horizon: u128 = exploration_fraction as u128 * total_time_steps as u128;
        assert(current_time_step * RATE_ONE <= 18_446_744_073_709_551_615_000_000int)
            by (nonlinear_arith)
            requires
                0 <= current_time_step <= 0xffff_ffff_ffff_ffff,
                RATE_ONE == 1_000_000,
        ;
        let elapsed: u128 = current_time_step as u128 * RATE_ONE as u128;
        let span: u128 = (RATE_ONE - exploration_final_epsilon) as u128;
        proof {
            lemma_epsilon_in_range(
                current_time_step as int,
                total_time_steps as int,
                exploration_fraction as int,
                exploration_final_epsilon as int,
            );
        }
        if elapsed >= horizon {
            Policy { exploration_rate: exploration_final_epsilon }
        } else {
            proof {
                lemma_mul_upper_bound(
                    elapsed as int,
                    18_446_744_073_709_551_615_000_000int,
                    span as int,
                    1_000_000int,
                );
            }
            let decay: u128 = elapsed * span / horizon;
            Policy { exploration_rate: RATE_ONE - decay as u32 }
        }
    }

    /// Whether a draw from `0..RATE_ONE` means exploring: a uniform draw
    /// does so with the probability that the rate stands for.
    pub fn explores(&self, draw: u32) -> (explore: bool)
        ensures
            explore == (draw < self.rate()),
    {
        draw < self.exploration_rate
    }

    /// Chooses how the next action is found: a uniformly random action with
    /// the probability of the exploration rate, else the model's best.
    pub fn get_next_action(&self, num_actions: usize) -> (choice: ActionChoice)
        requires
            num_actions > 0,
        ensures
            choice matches ActionChoice::Random(action) ==> action < num_actions && self.rate() > 0,
            choice is Greedy ==> self.rate() < RATE_ONE,
    {
        let draw: usize = random_below(RATE_ONE as usize);
        if self.explores(draw as u32) {
            ActionChoice::Random(random_below(num_actions))
        } else {
            ActionChoice::Greedy
        }
    }
}

} // verus!
