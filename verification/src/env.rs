//! The environment loop as a state machine. The driver owns the emulator and
//! the scoring collaborator; it reports what they did, and the machine
//! decides what happens next and what the agent gets to see.
//!
//! A step runs `frame_skip` emulator ticks with one button bitmask, sums
//! their rewards, and observes the frame after the last of them.

use crate::controller::{
    action_bitmask, action_count, combo_groups, construction_error, Controller, ControllerError,
};
use crate::frame_stack::{pushed, stacked_frames, zero_stack, FrameStack};
use crate::replay_buffer::IMAGE_SIZE;
use crate::preprocess::{
    frame_accepted, preprocess_screen, preprocessed, rejection, FrameError, FRAME_SIZE,
};
use vstd::prelude::*;

verus! {

/// What the scoring collaborator reports after one emulator tick.
#[derive(Clone, Copy, Debug, PartialEq, Eq, Structural)]
pub struct Tick {
    pub reward: i32,
    pub done: bool,
}

/// Sum of the rewards of the ticks.
pub open spec fn total_reward(ticks: Seq<Tick>) -> int
    decreases ticks.len(),
{
    if ticks.len() == 0 {
        0
    } else {
        total_reward(ticks.drop_last()) + ticks.last().reward
    }
}

/// Whether the scoring collaborator reported completion on one of the ticks.
pub open spec fn any_done(ticks: Seq<Tick>) -> bool {
    exists|i: int| 0 <= i < ticks.len() && (#[trigger] ticks[i]).done
}

/// The ticks of step number `step`, counted from zero, in the tick stream of
/// an episode.
pub open spec fn step_window(ticks: Seq<Tick>, frame_skip: int, step: int) -> Seq<Tick> {
    ticks.subrange(step * frame_skip, (step + 1) * frame_skip)
}

/// What the agent gets for one decision.
pub struct StepInfo {
    pub observation: Vec<u8>,
    pub reward: i64,
    pub is_done: bool,
}

/// Where the environment stands between calls.
#[derive(Clone, Copy, Debug, PartialEq, Eq, Structural)]
pub enum Phase {
    /// Built, not yet reset.
    Idle,
    /// A step may begin.
    Ready,
    /// A step has begun and its frame has not been observed yet.
    Stepping,
    /// The episode is over; only a reset leads on.
    Terminal,
}

/// What the driver has to do next within a step.
#[derive(Clone, Copy, Debug, PartialEq, Eq, Structural)]
pub enum Directive {
    /// Apply the bitmask of the action, advance the emulator and the scoring
    /// collaborator by one tick, and report the tick.
    Tick,
    /// Capture the emulator's frame and hand it over.
    Capture,
}

/// Why no observation was produced.
#[derive(Clone, Copy, Debug, PartialEq, Eq, Structural)]
pub enum EnvError {
    /// The emulator had no frame to give.
    ScreenUnavailable,
    /// The emulator's frame was rejected by the preprocessor.
    BadFrame(FrameError),
}

/// The outcome that a screen leads to: the frame to push, or the error.
pub open spec fn screen_outcome(screen: Option<(Vec<u8>, i32, i32)>) -> Result<Seq<u8>, EnvError> {
    match screen {
        None => Err(EnvError::ScreenUnavailable),
        Some((buffer, width, height)) => if frame_accepted(buffer@.len(), width, height) {
            Ok(preprocessed(buffer@, width, height))
        } else {
            Err(EnvError::BadFrame(rejection(buffer@.len(), width, height)))
        },
    }
}

proof fn lemma_any_done_push(ticks: Seq<Tick>, tick: Tick)
    ensures
        any_done(ticks.push(tick)) == (any_done(ticks) || tick.done),
{
    let longer = ticks.push(tick);
    if any_done(ticks) {
        let i = choose|i: int| 0 <= i < ticks.len() && (#[trigger] ticks[i]).done;
        assert(longer[i].done);
    }
    if tick.done {
        assert(longer[ticks.len() as int].done);
    }
    if any_done(longer) {
        let i = choose|i: int| 0 <= i < longer.len() && (#[trigger] longer[i]).done;
        if i < ticks.len() {
            assert(ticks[i].done);
        }
    }
}

/// Ticks that all pay the same reward sum to that reward times their number:
/// no tick's reward is dropped.
pub proof fn lemma_constant_reward_sums(ticks: Seq<Tick>, reward: i32)
    requires
        forall|i: int| 0 <= i < ticks.len() ==> (#[trigger] ticks[i]).reward == reward,
    ensures
        total_reward(ticks) == reward * ticks.len(),
    decreases ticks.len(),
{
    if ticks.len() > 0 {
        let n = ticks.len() as int;
        lemma_constant_reward_sums(ticks.drop_last(), reward);
        assert(ticks.last() == ticks[n - 1]);
        assert(reward * n == reward * (n - 1) + reward) by (nonlinear_arith);
    }
}

/// If completion is first reported on tick number `n`, counted from one,
/// then the step whose window holds that tick is the first to see it: that
/// step is done, and no step before it is.
pub proof fn lemma_done_at_crossing_step(ticks: Seq<Tick>, frame_skip: int, n: int)
    requires
        frame_skip > 0,
        0 < n <= ticks.len(),
        forall|i: int| 0 <= i < n - 1 ==> !(#[trigger] ticks[i]).done,
        ticks[n - 1].done,
        ((n - 1) / frame_skip + 1) * frame_skip <= ticks.len(),
    ensures
        any_done(step_window(ticks, frame_skip, (n - 1) / frame_skip)),
        forall|step: int|
            0 <= step < (n - 1) / frame_skip ==> !any_done(
                #[trigger] step_window(ticks, frame_skip, step),
            ),
{
    let fs = frame_skip;
    let last = (n - 1) / fs;
    vstd::arithmetic::div_mod::lemma_fundamental_div_mod(n - 1, fs);
    vstd::arithmetic::div_mod::lemma_mod_pos_bound(n - 1, fs);
    assert(last * fs == fs * last) by (nonlinear_arith);
    assert((last + 1) * fs == last * fs + fs) by (nonlinear_arith);
    let window = step_window(ticks, frame_skip, last);
    assert(window[(n - 1) % fs] == ticks[n - 1]);
    assert forall|step: int| 0 <= step < last implies !any_done(
        #[trigger] step_window(ticks, frame_skip, step),
    ) by {
        let w = step_window(ticks, frame_skip, step);
        assert((step + 1) * fs <= last * fs) by (nonlinear_arith)
            requires
                step + 1 <= last,
                fs > 0,
        ;
        assert((step + 1) * fs == step * fs + fs) by (nonlinear_arith);
        assert(step * fs >= 0) by (nonlinear_arith)
            requires
                step >= 0,
                fs > 0,
        ;
        if any_done(w) {
            let i = choose|i: int| 0 <= i < w.len() && (#[trigger] w[i]).done;
            assert(w[i] == ticks[step * fs + i]);
        }
    }
}

pub struct ImageRetroEnv {
    controller: Controller,
    frame_stack: FrameStack,
    frame_skip: u8,
    phase: Phase,
    action: usize,
    ticks_done: u8,
    reward_sum: i64,
    done_seen: bool,
    window: Ghost<Seq<Tick>>,
}

impl ImageRetroEnv {
    pub closed spec fn phase(&self) -> Phase {
        self.phase
    }

    /// Number of emulator ticks in a step.
    pub closed spec fn spec_frame_skip(&self) -> u8 {
        self.frame_skip
    }

    /// The combo groups of the action encoder.
    pub closed spec fn groups(&self) -> Seq<Seq<u64>> {
        self.controller.groups()
    }

    pub closed spec fn spec_num_actions(&self) -> usize {
        self.controller.spec_num_actions()
    }

    pub closed spec fn spec_num_buttons(&self) -> usize {
        self.controller.spec_num_buttons()
    }

    /// The frames of the observation window, oldest first.
    pub closed spec fn frames(&self) -> Seq<Seq<u8>> {
        self.frame_stack@
    }

    /// The ticks reported so far in the step in progress.
    pub closed spec fn window(&self) -> Seq<Tick> {
        self.window@
    }

    /// The action of the step in progress.
    pub closed spec fn pending_action(&self) -> usize {
        self.action
    }

    pub closed spec fn wf(&self) -> bool {
        &&& self.controller.wf()
        &&& self.frame_stack.wf()
        &&& self.frame_stack.spec_frame_size() == FRAME_SIZE
        &&& self.phase == Phase::Stepping ==> {
            &&& self.action < self.controller.spec_num_actions()
            &&& self.window@.len() <= self.frame_skip
            &&& self.ticks_done == self.window@.len()
            &&& self.reward_sum == total_reward(self.window@)
            &&& -0x8000_0000 * self.window@.len() <= self.reward_sum <= 0x8000_0000
                * self.window@.len()
            &&& self.done_seen == any_done(self.window@)
        }
    }

    /// The same action encoder and frame skip as `other`.
    pub open spec fn same_setup(&self, other: &Self) -> bool {
        &&& self.groups() == other.groups()
        &&& self.spec_num_actions() == other.spec_num_actions()
        &&& self.spec_num_buttons() == other.spec_num_buttons()
        &&& self.spec_frame_skip() == other.spec_frame_skip()
    }

    /// An environment for the given combo groups, not yet reset. Fails as
    /// the action encoder does.
    pub fn new(button_combos: Vec<Vec<u64>>, frame_skip: u8) -> (result: Result<
        ImageRetroEnv,
        ControllerError,
    >)
        ensures
            match result {
                Ok(env) => {
                    &&& construction_error(combo_groups(&button_combos)) is None
                    &&& env.wf()
                    &&& env.phase() == Phase::Idle
                    &&& env.spec_frame_skip() == frame_skip
                    &&& env.groups() == combo_groups(&button_combos)
                    &&& env.spec_num_actions() == action_count(env.groups())
                    &&& env.frames() == zero_stack(FRAME_SIZE as nat)
                },
                Err(error) => construction_error(combo_groups(&button_combos)) == Some(error),
            },
    {
        match Controller::new(button_combos) {
            Ok(controller) => Ok(
                ImageRetroEnv {
                    controller,
                    frame_stack: FrameStack::new(FRAME_SIZE),
                    frame_skip,
                    phase: Phase::Idle,
                    action: 0,
                    ticks_done: 0,
                    reward_sum: 0,
                    done_seen: false,
                    window: Ghost(Seq::empty()),
                },
            ),
            Err(error) => Err(error),
        }
    }

    /// Size of the action space.
    pub fn num_actions(&self) -> (count: usize)
        requires
            self.wf(),
        ensures
            count == self.spec_num_actions(),
            count == action_count(self.groups()),
            count >= 1,
    {
        self.controller.num_actions()
    }

    pub fn frame_skip(&self) -> (frame_skip: u8)
        ensures
            frame_skip == self.spec_frame_skip(),
    {
        self.frame_skip
    }

    pub fn current_phase(&self) -> (phase: Phase)
        ensures
            phase == self.phase(),
    {
        self.phase
    }

    /// Whether a step may begin.
    pub fn is_ready(&self) -> (ready: bool)
        ensures
            ready == (self.phase() == Phase::Ready),
    {
        match self.phase {
            Phase::Ready => true,
            _ => false,
        }
    }

    /// Whether the episode is over.
    pub fn is_done(&self) -> (done: bool)
        ensures
            done == (self.phase() == Phase::Terminal),
    {
        match self.phase {
            Phase::Terminal => true,
            _ => false,
        }
    }

    /// The button bitmask of an action.
    pub fn get_button_bitmask(&self, action: usize) -> (bits: &Vec<u8>)
        requires
            self.wf(),
            action < self.spec_num_actions(),
        ensures
            bits@ == action_bitmask(self.groups(), action as int, self.spec_num_buttons() as int),
            bits@.len() == self.spec_num_buttons(),
    {
        self.controller.get_button_bitmask(action)
    }

    /// Number of ticks that the step in progress still has to run.
    pub fn ticks_remaining(&self) -> (remaining: u8)
        requires
            self.wf(),
            self.phase() == Phase::Stepping,
        ensures
            remaining == self.spec_frame_skip() - self.window().len(),
    {
        self.frame_skip - self.ticks_done
    }

    /// Starts an episode, after the driver has restored the emulator's start
    /// state, reset the scoring collaborator and advanced one tick: clears
    /// the observation window and pushes the first frame. The reward and the
    /// completion flag are those of the scoring collaborator after its
    /// reset. Whatever the flag, a step may begin afterwards.
    ///
    /// Without a usable frame nothing changes.
    pub fn reset(&mut self, screen: Option<(Vec<u8>, i32, i32)>, reward: i32, is_done: bool) -> (result:
        Result<StepInfo, EnvError>)
        requires
            old(self).wf(),
        ensures
            final(self).wf(),
            final(self).same_setup(old(self)),
            match result {
                Ok(info) => {
                    &&& screen_outcome(screen) matches Ok(frame) && final(self).frames() == pushed(
                        zero_stack(FRAME_SIZE as nat),
                        frame,
                    )
                    &&& final(self).phase() == Phase::Ready
                    &&& info.observation@ == stacked_frames(final(self).frames())
                    &&& info.observation@.len() == IMAGE_SIZE
                    &&& info.reward == reward
                    &&& info.is_done == is_done
                },
                Err(error) => {
                    &&& screen_outcome(screen) == Err::<Seq<u8>, EnvError>(error)
                    &&& *final(self) == *old(self)
                },
            },
    {
        let frame = match Self::frame_of(screen) {
            Ok(frame) => frame,
            Err(error) => {
                return Err(error);
            },
        };
        self.frame_stack.clear();
        self.frame_stack.push(frame);
        self.phase = Phase::Ready;
        Ok(StepInfo { observation: self.frame_stack.stacked(), reward: reward as i64, is_done })
    }

    /// Begins a step with the given action and says what the driver does
    /// first: a tick, or the capture at once when no tick is to be skipped.
    pub fn begin_step(&mut self, action: usize) -> (next: Directive)
        requires
            old(self).wf(),
            old(self).phase() == Phase::Ready,
            action < old(self).spec_num_actions(),
        ensures
            final(self).wf(),
            final(self).same_setup(old(self)),
            final(self).frames() == old(self).frames(),
            final(self).phase() == Phase::Stepping,
            final(self).pending_action() == action,
            final(self).window() == Seq::<Tick>::empty(),
            next == if final(self).spec_frame_skip() > 0 {
                Directive::Tick
            } else {
                Directive::Capture
            },
    {
        self.phase = Phase::Stepping;
        self.action = action;
        self.ticks_done = 0;
        self.reward_sum = 0;
        self.done_seen = false;
        self.window = Ghost(Seq::empty());
        if self.frame_skip > 0 {
            Directive::Tick
        } else {
            Directive::Capture
        }
    }

    /// The bitmask that the driver applies on every tick of the step in
    /// progress.
    pub fn pending_bitmask(&self) -> (bits: &Vec<u8>)
        requires
            self.wf(),
            self.phase() == Phase::Stepping,
        ensures
            bits@ == action_bitmask(
                self.groups(),
                self.pending_action() as int,
                self.spec_num_buttons() as int,
            ),
    {
        self.controller.get_button_bitmask(self.action)
    }

    /// Takes in what the scoring collaborator reported after one tick of the
    /// step in progress, and says whether another tick follows.
    pub fn skipped_frame_step(&mut self, reward: i32, done: bool) -> (next: Directive)
        requires
            old(self).wf(),
            old(self).phase() == Phase::Stepping,
            old(self).window().len() < old(self).spec_frame_skip(),
        ensures
            final(self).wf(),
            final(self).same_setup(old(self)),
            final(self).frames() == old(self).frames(),
            final(self).phase() == Phase::Stepping,
            final(self).pending_action() == old(self).pending_action(),
            final(self).window() == old(self).window().push(Tick { reward, done }),
            next == if final(self).window().len() < final(self).spec_frame_skip() {
                Directive::Tick
            } else {
                Directive::Capture
            },
    {
        proof {
            lemma_any_done_push(self.window@, Tick { reward, done });
            assert(self.window@.push(Tick { reward, done }).drop_last() =~= self.window@);
        }
        self.reward_sum = self.reward_sum + reward as i64;
        self.done_seen = self.done_seen || done;
        self.ticks_done = self.ticks_done + 1;
        self.window = Ghost(self.window@.push(Tick { reward, done }));
        if self.ticks_done < self.frame_skip {
            Directive::Tick
        } else {
            Directive::Capture
        }
    }

    /// Ends the step in progress with the frame captured after its last
    /// tick: pushes the preprocessed frame and returns the observation, the
    /// sum of the rewards of the ticks, and whether one of them reported
    /// completion. The episode is over exactly when one did.
    ///
    /// Without a usable frame nothing changes, and the call may be repeated.
    pub fn step_current_frame(&mut self, screen: Option<(Vec<u8>, i32, i32)>) -> (result: Result<
        StepInfo,
        EnvError,
    >)
        requires
            old(self).wf(),
            old(self).phase() == Phase::Stepping,
            old(self).window().len() == old(self).spec_frame_skip(),
        ensures
            final(self).wf(),
            final(self).same_setup(old(self)),
            match result {
                Ok(info) => {
                    &&& screen_outcome(screen) matches Ok(frame) && final(self).frames() == pushed(
                        old(self).frames(),
                        frame,
                    )
                    &&& info.observation@ == stacked_frames(final(self).frames())
                    &&& info.observation@.len() == IMAGE_SIZE
                    &&& info.reward == total_reward(old(self).window())
                    &&& info.is_done == any_done(old(self).window())
                    &&& final(self).phase() == if info.is_done {
                        Phase::Terminal
                    } else {
                        Phase::Ready
                    }
                },
                Err(error) => {
                    &&& screen_outcome(screen) == Err::<Seq<u8>, EnvError>(error)
                    &&& *final(self) == *old(self)
                },
            },
    {
        let frame = match Self::frame_of(screen) {
            Ok(frame) => frame,
            Err(error) => {
                return Err(error);
            },
        };
        self.frame_stack.push(frame);
        let reward = self.reward_sum;
        let is_done = self.done_seen;
        self.phase = if is_done {
            Phase::Terminal
        } else {
            Phase::Ready
        };
        Ok(StepInfo { observation: self.frame_stack.stacked(), reward, is_done })
    }

    /// Preprocesses the screen that the emulator gave, if it gave one.
    fn frame_of(screen: Option<(Vec<u8>, i32, i32)>) -> (result: Result<Vec<u8>, EnvError>)
        ensures
            match result {
                Ok(frame) => screen_outcome(screen) == Ok::<Seq<u8>, EnvError>(frame@)
                    && frame@.len() == FRAME_SIZE,
                Err(error) => screen_outcome(screen) == Err::<Seq<u8>, EnvError>(error),
            },
    {
        match screen {
            None => Err(EnvError::ScreenUnavailable),
            Some((buffer, width, height)) => match preprocess_screen(buffer, width, height) {
                Ok(frame) => Ok(frame),
                Err(error) => Err(EnvError::BadFrame(error)),
            },
        }
    }
}

} // verus!
