use retro_rl::env::StepInfo;
use retro_rl::policy::{ActionChoice, Policy, RATE_ONE};
use retro_rl::q_learning::{QLearner, HIDDEN_SIZE};
use retro_rl::replay_buffer::IMAGE_SIZE;

fn learner(train_frequency: usize, target_update_interval: usize) -> QLearner {
    // Ready from two stored transitions on; exploration decays over 10 steps.
    QLearner::new(5, 4, 2, 2, train_frequency, target_update_interval, 100, 100_000, 0)
}

fn outcome(marker: u8, reward: i64, is_done: bool) -> StepInfo {
    StepInfo { observation: vec![marker; IMAGE_SIZE], reward, is_done }
}

#[test]
fn new_learner_has_taken_no_step() {
    let learner = learner(1, 3);
    assert_eq!(learner.iteration_count(), 0);
    assert_eq!(learner.num_actions(), 5);
    assert_eq!(learner.replay_buffer().len(), 0);
    assert_eq!(learner.replay_buffer().capacity(), 4);
    assert_eq!(learner.replay_buffer().batch_size(), 2);
    assert_eq!(learner.rewards().average(), None);
}

#[test]
fn network_has_one_output_per_action() {
    let config = learner(1, 3).network_config();
    assert_eq!(config.num_classes, 5);
    assert_eq!(config.hidden_size, HIDDEN_SIZE);
    assert_eq!(HIDDEN_SIZE, 512);
}

#[test]
fn bootstrap_phase_stores_and_plays_randomly() {
    let mut learner = learner(1, 3);
    let image = vec![1u8; IMAGE_SIZE];
    let (policy, plan) = learner.learn_step(Policy::new(), &image, 3, &outcome(2, 9, false));
    assert!(plan.batch.is_none());
    assert!(matches!(plan.next_action, ActionChoice::Random(action) if action < 5));
    assert!(!plan.sync_target);
    assert_eq!(policy.exploration_rate(), RATE_ONE);
    assert_eq!(learner.iteration_count(), 1);
    assert_eq!(learner.replay_buffer().len(), 1);
    let stored = learner.replay_buffer().gather(&vec![0]);
    assert_eq!(stored.actions, vec![3]);
    assert_eq!(stored.rewards, vec![9]);
    assert_eq!(stored.dones, vec![false]);
    assert_eq!(stored.images[0], 1);
    assert_eq!(stored.next_images[0], 2);
}

#[test]
fn training_starts_when_the_buffer_is_ready() {
    let mut learner = learner(1, 3);
    let image = vec![0u8; IMAGE_SIZE];
    let (policy, _) = learner.learn_step(Policy::new(), &image, 0, &outcome(0, 0, false));
    let (policy, plan) = learner.learn_step(policy, &image, 1, &outcome(1, 0, true));
    let batch = plan.batch.unwrap();
    let mut indices = batch.indices.clone();
    indices.sort();
    assert_eq!(indices, vec![0, 1]);
    assert_eq!(batch.images.len(), 2 * IMAGE_SIZE);
    // The rate scheduled for step 1 of a horizon of 10 steps, falling to 0.
    assert_eq!(policy.exploration_rate(), 900_000);
    assert_eq!(learner.iteration_count(), 2);
}

#[test]
fn training_waits_for_a_multiple_of_the_train_frequency() {
    let mut learner = learner(4, 100);
    let image = vec![0u8; IMAGE_SIZE];
    let mut policy = Policy::new();
    let mut trained_at = Vec::new();
    for step in 0..9 {
        let (next_policy, plan) = learner.learn_step(policy, &image, 0, &outcome(0, 0, false));
        policy = next_policy;
        if plan.batch.is_some() {
            trained_at.push(step);
        }
    }
    // Step 0 is a multiple too, but the buffer is not ready then.
    assert_eq!(trained_at, vec![4, 8]);
    assert_eq!(policy.exploration_rate(), 200_000);
}

#[test]
fn target_is_refreshed_at_every_interval() {
    let mut learner = learner(1, 3);
    let image = vec![0u8; IMAGE_SIZE];
    let mut policy = Policy::new();
    let mut synced_after = Vec::new();
    for step in 0..10 {
        let (next_policy, plan) = learner.learn_step(policy, &image, 0, &outcome(0, 0, false));
        policy = next_policy;
        if plan.sync_target {
            synced_after.push(step);
        }
    }
    assert_eq!(synced_after, vec![2, 5, 8]);
}

#[test]
fn exhausted_exploration_follows_the_model() {
    let mut learner = learner(1, 3);
    let image = vec![0u8; IMAGE_SIZE];
    let mut policy = Policy::new();
    for _ in 0..10 {
        policy = learner.learn_step(policy, &image, 0, &outcome(0, 0, false)).0;
    }
    let (policy, plan) = learner.learn_step(policy, &image, 0, &outcome(0, 0, false));
    assert_eq!(policy.exploration_rate(), 0);
    assert_eq!(plan.next_action, ActionChoice::Greedy);
    assert!(plan.batch.is_some());
}

#[test]
fn full_buffer_keeps_taking_transitions() {
    let mut learner = learner(1, 3);
    let image = vec![0u8; IMAGE_SIZE];
    let mut policy = Policy::new();
    for step in 0..7u8 {
        policy = learner.learn_step(policy, &image, (step % 5) as usize, &outcome(step, 0, false)).0;
    }
    assert_eq!(learner.replay_buffer().len(), 4);
    // Stores 4, 5 and 6 went to slots 0, 1 and 2; slot 3 still holds store 3.
    let stored = learner.replay_buffer().gather(&vec![0, 1, 2, 3]);
    assert_eq!(stored.actions, vec![4, 0, 1, 3]);
}

#[test]
fn episode_rewards_enter_the_rolling_average() {
    let mut learner = learner(1, 3);
    assert_eq!(learner.finish_episode(10), 10);
    assert_eq!(learner.finish_episode(20), 15);
    assert_eq!(learner.finish_episode(-60), -10);
    assert_eq!(learner.rewards().len(), 3);
    assert_eq!(learner.iteration_count(), 0);
}
