use retro_rl::frame_stack::{FrameStack, STACK_SIZE};

#[test]
fn new_stack_observes_zeros() {
    let stack = FrameStack::new(6);
    assert_eq!(stack.frame_size(), 6);
    assert_eq!(stack.stacked(), vec![0u8; STACK_SIZE * 6]);
}

#[test]
fn cleared_stack_observes_zeros_of_full_length() {
    let mut stack = FrameStack::new(3);
    stack.push(vec![9, 9, 9]);
    stack.push(vec![7, 7, 7]);
    stack.clear();
    let observation = stack.stacked();
    assert_eq!(observation.len(), STACK_SIZE * 3);
    assert!(observation.iter().all(|value| *value == 0));
}

#[test]
fn first_push_after_clear_is_observed_verbatim() {
    let mut stack = FrameStack::new(3);
    stack.clear();
    stack.push(vec![5, 0, 200]);
    assert_eq!(stack.stacked(), vec![0, 0, 0, 0, 0, 0, 0, 0, 0, 5, 0, 200]);
}

#[test]
fn second_push_observes_the_maximum_of_the_two() {
    let mut stack = FrameStack::new(3);
    stack.clear();
    stack.push(vec![5, 100, 7]);
    stack.push(vec![9, 50, 7]);
    let observation = stack.stacked();
    assert_eq!(observation[6..9], [5, 100, 7]);
    assert_eq!(observation[9..12], [9, 100, 7]);
}

#[test]
fn fifth_push_evicts_the_oldest_frame() {
    let mut stack = FrameStack::new(1);
    for value in 1..=5u8 {
        stack.push(vec![value]);
    }
    assert_eq!(stack.stacked(), vec![2, 3, 4, 5]);
    stack.push(vec![1]);
    // Older slots are raw; the newest is max(1, 5).
    assert_eq!(stack.stacked(), vec![3, 4, 5, 5]);
}

#[test]
fn empty_frames_stack_to_nothing() {
    let mut stack = FrameStack::new(0);
    stack.push(Vec::new());
    assert!(stack.stacked().is_empty());
}
