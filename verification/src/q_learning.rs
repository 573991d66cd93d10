//! The training orchestrator: what happens after every environment step and
//! at the end of every episode.
//!
//! The driver owns the model. After each step it hands the transition over
//! and gets back a plan: the batch to train on, if training is due, how to
//! find the next action, and whether to refresh the target network.

use crate::env::StepInfo;
use crate::network_config::NetworkConfig;
use crate::policy::{epsilon_at, ActionChoice, Policy, RATE_ONE};
use crate::random::random_below;
use crate::replay_buffer::{ReplayBuffer, RetroBatch, Ring, Transition, IMAGE_SIZE};
use crate::utils::{mean_of, slid, RollingAverage};
use vstd::prelude::*;

verus! {

/// Width of the hidden layer of the value network.
pub const HIDDEN_SIZE: usize = 512;

/// What the driver does after a step.
pub struct StepPlan {
    /// The batch to train the model on before the next action is chosen;
    /// nothing when no training is due.
    pub batch: Option<RetroBatch>,
    /// How the next action is found.
    pub next_action: ActionChoice,
    /// Whether the target network takes over the trained parameters.
    pub sync_target: bool,
}

/// The settings of a training run.
#[derive(Clone, Copy, Debug, PartialEq, Eq, Structural)]
pub struct Schedule {
    pub num_actions: usize,
    pub train_frequency: usize,
    pub target_update_interval: usize,
    pub total_time_steps: usize,
    pub exploration_fraction: u32,
    pub exploration_final_epsilon: u32,
}

impl Schedule {
    pub open spec fn wf(self) -> bool {
        &&& 0 < self.num_actions <= i32::MAX
        &&& self.train_frequency > 0
        &&& self.target_update_interval > 0
        &&& self.exploration_final_epsilon <= RATE_ONE
    }

    /// Whether the model is trained after the step with the given count,
    /// given the fill level of the buffer: the buffer is ready and the count
    /// is a multiple of the train frequency.
    pub open spec fn trains(self, iteration_count: int, stored: int, min_samples: int) -> bool {
        stored >= min_samples && iteration_count % (self.train_frequency as int) == 0
    }

    /// Whether the target network is refreshed after the step with the given
    /// count: every `target_update_interval` steps.
    pub open spec fn syncs_target(self, iteration_count: int) -> bool {
        (iteration_count + 1) % (self.target_update_interval as int) == 0
    }

    /// The exploration rate scheduled for the given count.
    pub open spec fn epsilon(self, iteration_count: int) -> int {
        epsilon_at(
            iteration_count,
            self.total_time_steps as int,
            self.exploration_fraction as int,
            self.exploration_final_epsilon as int,
        )
    }
}

pub struct QLearner {
    replay_buffer: ReplayBuffer,
    schedule: Schedule,
    iteration_count: usize,
    rewards: RollingAverage,
}

impl QLearner {
    pub closed spec fn schedule(&self) -> Schedule {
        self.schedule
    }

    /// Number of environment steps taken so far.
    pub closed spec fn spec_iteration_count(&self) -> usize {
        self.iteration_count
    }

    /// The model of the replay buffer.
    pub closed spec fn buffer(&self) -> Ring {
        self.replay_buffer@
    }

    pub closed spec fn spec_batch_size(&self) -> usize {
        self.replay_buffer.spec_batch_size()
    }

    pub closed spec fn spec_min_samples(&self) -> usize {
        self.replay_buffer.spec_min_samples()
    }

    /// The episode rewards that the rolling average runs over, oldest first.
    pub closed spec fn reward_window(&self) -> Seq<i64> {
        self.rewards@
    }

    pub closed spec fn wf(&self) -> bool {
        &&& self.replay_buffer.wf()
        &&& self.rewards.wf()
        &&& self.schedule.wf()
    }

    /// A learner with an empty replay buffer and no step taken.
    pub fn new(
        num_actions: usize,
        replay_buffer_capacity: usize,
        min_samples: usize,
        batch_size: usize,
        train_frequency: usize,
        target_update_interval: usize,
        total_time_steps: usize,
        exploration_fraction: u32,
        exploration_final_epsilon: u32,
    ) -> (learner: Self)
        requires
            0 < num_actions <= i32::MAX,
            replay_buffer_capacity > 0,
            replay_buffer_capacity * IMAGE_SIZE <= usize::MAX,
            train_frequency > 0,
            target_update_interval > 0,
            exploration_final_epsilon <= RATE_ONE,
        ensures
            learner.wf(),
            learner.schedule() == (Schedule {
                num_actions,
                train_frequency,
                target_update_interval,
                total_time_steps,
                exploration_fraction,
                exploration_final_epsilon,
            }),
            learner.spec_iteration_count() == 0,
            learner.buffer() == Ring::empty(replay_buffer_capacity as nat),
            learner.spec_batch_size() == batch_size,
            learner.spec_min_samples() == if batch_size >= min_samples {
                batch_size
            } else {
                min_samples
            },
            learner.reward_window() == Seq::<i64>::empty(),
    {
        QLearner {
            replay_buffer: ReplayBuffer::new(batch_size, replay_buffer_capacity, min_samples),
            schedule: Schedule {
                num_actions,
                train_frequency,
                target_update_interval,
                total_time_steps,
                exploration_fraction,
                exploration_final_epsilon,
            },
            iteration_count: 0,
            rewards: RollingAverage::new(),
        }
    }

    pub fn iteration_count(&self) -> (count: usize)
        ensures
            count == self.spec_iteration_count(),
    {
        self.iteration_count
    }

    pub fn num_actions(&self) -> (count: usize)
        ensures
            count == self.schedule().num_actions,
    {
        self.schedule.num_actions
    }

    pub fn replay_buffer(&self) -> (buffer: &ReplayBuffer)
        requires
            self.wf(),
        ensures
            buffer.wf(),
            buffer@ == self.buffer(),
            buffer.spec_batch_size() == self.spec_batch_size(),
            buffer.spec_min_samples() == self.spec_min_samples(),
    {
        &self.replay_buffer
    }

    pub fn rewards(&self) -> (rewards: &RollingAverage)
        requires
            self.wf(),
        ensures
            rewards.wf(),
            rewards@ == self.reward_window(),
    {
        &self.rewards
    }

    /// The configuration of the value network: one output per action.
    pub fn network_config(&self) -> (config: NetworkConfig)
        ensures
            config.num_classes == self.schedule().num_actions,
            config.hidden_size == HIDDEN_SIZE,
    {
        NetworkConfig::new(self.schedule.num_actions, HIDDEN_SIZE)
    }

    /// Takes in the outcome of one environment step and plans what follows.
    ///
    /// The transition is stored. If the buffer is ready and the step count
    /// is a multiple of the train frequency, a batch is sampled for the
    /// model to train on, the policy takes the exploration rate scheduled
    /// for the count, and the policy chooses the next action; otherwise the
    /// next action is uniformly random. The target network is refreshed
    /// every `target_update_interval` steps. Then the count goes up by one.
    pub fn learn_step(
        &mut self,
        policy: Policy,
        image: &[u8],
        action: usize,
        step: &StepInfo,
    ) -> (result: (Policy, StepPlan))
        requires
            old(self).wf(),
            old(self).spec_iteration_count() < usize::MAX,
            action < old(self).schedule().num_actions,
            image@.len() == IMAGE_SIZE,
            step.observation@.len() == IMAGE_SIZE,
        ensures
            final(self).wf(),
            final(self).schedule() == old(self).schedule(),
            final(self).spec_batch_size() == old(self).spec_batch_size(),
            final(self).spec_min_samples() == old(self).spec_min_samples(),
            final(self).reward_window() == old(self).reward_window(),
            final(self).spec_iteration_count() == old(self).spec_iteration_count() + 1,
            final(self).buffer() == old(self).buffer().store(
                Transition {
                    observation: image@,
                    action: action as i32,
                    reward: step.reward,
                    next_observation: step.observation@,
                    done: step.is_done,
                },
            ),
            ({
                let (next_policy, plan) = result;
                let schedule = old(self).schedule();
                let count = old(self).spec_iteration_count() as int;
                let stored = final(self).buffer();
                let trains = schedule.trains(
                    count,
                    stored.slots.len() as int,
                    old(self).spec_min_samples() as int,
                );
                &&& plan.sync_target == schedule.syncs_target(count)
                &&& plan.batch is Some <==> trains
                &&& plan.batch matches Some(batch) ==> {
                    &&& batch.wf()
                    &&& batch.indices@.len() == old(self).spec_batch_size()
                    &&& batch.indices@.no_duplicates()
                    &&& forall|k: int|
                        0 <= k < batch.indices@.len() ==> batch.indices@[k] < stored.slots.len()
                    &&& batch@ == stored.select(batch.indices@)
                }
                &&& next_policy.rate() == if trains {
                    schedule.epsilon(count)
                } else {
                    policy.rate() as int
                }
                &&& plan.next_action matches ActionChoice::Random(next) ==> next
                    < schedule.num_actions
                &&& !trains ==> plan.next_action is Random
                &&& trains && next_policy.rate() == RATE_ONE ==> plan.next_action is Random
                &&& trains && next_policy.rate() == 0 ==> plan.next_action is Greedy
            }),
    {
        self.replay_buffer.store_transition(
            image,
            action as i32,
            step.reward,
            &step.observation,
            step.is_done,
        );
        let trains = self.replay_buffer.learning_is_ready() && self.iteration_count
            % self.schedule.train_frequency == 0;
        let mut next_policy = policy;
        let mut batch: Option<RetroBatch> = None;
        let next_action = if trains {
            match self.replay_buffer.sample(self.replay_buffer.batch_size()) {
                Ok(sampled) => {
                    batch = Some(sampled);
                },
                Err(_) => {},
            }
            next_policy =
            policy.update(
                self.iteration_count,
                self.schedule.total_time_steps,
                self.schedule.exploration_fraction,
                self.schedule.exploration_final_epsilon,
            );
            next_policy.get_next_action(self.schedule.num_actions)
        } else {
            ActionChoice::Random(random_below(self.schedule.num_actions))
        };
        let sync_target = (self.iteration_count + 1) % self.schedule.target_update_interval == 0;
        self.iteration_count += 1;
        (next_policy, StepPlan { batch, next_action, sync_target })
    }

    /// Closes an episode: the episode's reward enters the rolling average,
    /// and the average over the window is reported.
    pub fn finish_episode(&mut self, episode_reward: i64) -> (average: i64)
        requires
            old(self).wf(),
        ensures
            final(self).wf(),
            final(self).schedule() == old(self).schedule(),
            final(self).spec_batch_size() == old(self).spec_batch_size(),
            final(self).spec_min_samples() == old(self).spec_min_samples(),
            final(self).spec_iteration_count() == old(self).spec_iteration_count(),
            final(self).buffer() == old(self).buffer(),
            final(self).reward_window() == slid(old(self).reward_window(), episode_reward),
            average == mean_of(final(self).reward_window()),
    {
        self.rewards.push(episode_reward);
        match self.rewards.average() {
            Some(average) => average,
            None => 0,
        }
    }
}

} // verus!
