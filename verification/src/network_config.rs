//! The shape of the value network, as far as the learner decides it.

use vstd::prelude::*;

verus! {

/// Sizes of the two layers that depend on the task: one output per action,
/// and the width of the hidden layer before it.
#[derive(Clone, Copy, Debug, PartialEq, Eq, Structural)]
pub struct NetworkConfig {
    pub num_classes: usize,
    pub hidden_size: usize,
}

impl NetworkConfig {
    pub fn new(num_classes: usize, hidden_size: usize) -> (config: Self)
        ensures
            config == (NetworkConfig { num_classes, hidden_size }),
    {
        NetworkConfig { num_classes, hidden_size }
    }
}

} // verus!
