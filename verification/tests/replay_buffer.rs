use retro_rl::replay_buffer::{InsufficientData, ReplayBuffer, IMAGE_SIZE};

fn image(marker: u8) -> Vec<u8> {
    vec![marker; IMAGE_SIZE]
}

fn filled(capacity: usize, count: u8) -> ReplayBuffer {
    let mut buffer = ReplayBuffer::new(2, capacity, 2);
    for marker in 0..count {
        buffer.store_transition(
            &image(marker),
            marker as i32,
            marker as i64 * 10,
            &image(marker + 100),
            marker % 2 == 1,
        );
    }
    buffer
}

#[test]
fn image_size_is_four_frames() {
    assert_eq!(IMAGE_SIZE, 4 * 84 * 84);
}

#[test]
fn new_buffer_is_empty_and_not_ready() {
    let buffer = ReplayBuffer::new(4, 8, 2);
    assert_eq!(buffer.len(), 0);
    assert_eq!(buffer.capacity(), 8);
    assert_eq!(buffer.batch_size(), 4);
    assert!(!buffer.learning_is_ready());
}

#[test]
fn length_grows_until_capacity() {
    for count in 0..=3u8 {
        assert_eq!(filled(3, count).len(), count as usize);
    }
    assert_eq!(filled(3, 4).len(), 3);
}

#[test]
fn overflow_keeps_length_at_capacity_and_discards_the_oldest() {
    let buffer = filled(3, 5);
    assert_eq!(buffer.len(), 3);
    for _ in 0..20 {
        let batch = buffer.sample(3).unwrap();
        let mut actions = batch.actions.clone();
        actions.sort();
        assert_eq!(actions, vec![2, 3, 4]);
    }
}

#[test]
fn slots_hold_the_newest_transition_that_fell_into_them() {
    let buffer = filled(3, 5);
    let batch = buffer.gather(&vec![0, 1, 2]);
    // Stores 3 and 4 went to slots 0 and 1; slot 2 still holds store 2.
    assert_eq!(batch.actions, vec![3, 4, 2]);
    assert_eq!(batch.rewards, vec![30, 40, 20]);
    assert_eq!(batch.dones, vec![true, false, false]);
    assert_eq!(batch.images[0], 3);
    assert_eq!(batch.images[IMAGE_SIZE], 4);
    assert_eq!(batch.images[2 * IMAGE_SIZE], 2);
    assert_eq!(batch.next_images[2 * IMAGE_SIZE], 102);
}

#[test]
fn gather_follows_the_order_of_the_indices() {
    let buffer = filled(4, 4);
    let batch = buffer.gather(&vec![3, 0, 3]);
    assert_eq!(batch.indices, vec![3, 0, 3]);
    assert_eq!(batch.actions, vec![3, 0, 3]);
    assert_eq!(batch.images.len(), 3 * IMAGE_SIZE);
    assert_eq!(batch.next_images.len(), 3 * IMAGE_SIZE);
    assert!(batch.images[..IMAGE_SIZE].iter().all(|value| *value == 3));
    assert!(batch.images[IMAGE_SIZE..2 * IMAGE_SIZE].iter().all(|value| *value == 0));
    assert!(batch.next_images[IMAGE_SIZE..2 * IMAGE_SIZE].iter().all(|value| *value == 100));
}

#[test]
fn sample_returns_distinct_indices_in_range() {
    let buffer = filled(8, 6);
    for _ in 0..50 {
        let batch = buffer.sample(4).unwrap();
        assert_eq!(batch.indices.len(), 4);
        assert_eq!(batch.actions.len(), 4);
        assert_eq!(batch.rewards.len(), 4);
        assert_eq!(batch.dones.len(), 4);
        assert_eq!(batch.images.len(), 4 * IMAGE_SIZE);
        for (k, index) in batch.indices.iter().enumerate() {
            assert!(*index < 6);
            assert!(!batch.indices[..k].contains(index));
            assert_eq!(batch.actions[k], *index as i32);
            assert_eq!(batch.rewards[k], *index as i64 * 10);
            assert_eq!(batch.images[k * IMAGE_SIZE], *index as u8);
        }
    }
}

#[test]
fn sample_of_everything_is_a_permutation() {
    let buffer = filled(5, 5);
    let mut indices = buffer.sample(5).unwrap().indices;
    indices.sort();
    assert_eq!(indices, vec![0, 1, 2, 3, 4]);
}

#[test]
fn sample_of_nothing_is_empty() {
    let batch = filled(5, 0).sample(0).unwrap();
    assert!(batch.indices.is_empty());
    assert!(batch.images.is_empty());
}

#[test]
fn sample_beyond_the_fill_level_fails() {
    let buffer = filled(8, 3);
    assert_eq!(
        buffer.sample(4).err(),
        Some(InsufficientData { requested: 4, available: 3 })
    );
    assert!(buffer.sample(3).is_ok());
}

#[test]
fn readiness_needs_the_larger_of_batch_size_and_floor() {
    let mut by_floor = ReplayBuffer::new(1, 4, 3);
    let mut by_batch = ReplayBuffer::new(3, 4, 1);
    for marker in 0..2u8 {
        by_floor.store_transition(&image(marker), 0, 0, &image(marker), false);
        by_batch.store_transition(&image(marker), 0, 0, &image(marker), false);
    }
    assert!(!by_floor.learning_is_ready());
    assert!(!by_batch.learning_is_ready());
    by_floor.store_transition(&image(2), 0, 0, &image(2), false);
    by_batch.store_transition(&image(2), 0, 0, &image(2), false);
    assert!(by_floor.learning_is_ready());
    assert!(by_batch.learning_is_ready());
}

#[test]
fn capacity_one_always_holds_the_last_transition() {
    let buffer = filled(1, 3);
    assert_eq!(buffer.len(), 1);
    assert_eq!(buffer.sample(1).unwrap().actions, vec![2]);
}
