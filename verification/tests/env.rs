use retro_rl::controller::ControllerError;
use retro_rl::env::{Directive, EnvError, ImageRetroEnv, Phase, StepInfo};
use retro_rl::preprocess::{FrameError, FRAME_SIZE};

fn combos() -> Vec<Vec<u64>> {
    vec![vec![0, 16, 32], vec![0, 64, 128]]
}

fn screen(level: u8) -> Option<(Vec<u8>, i32, i32)> {
    Some((vec![level; 84 * 84 * 3], 84, 84))
}

fn ready_env(frame_skip: u8) -> ImageRetroEnv {
    let mut env = ImageRetroEnv::new(combos(), frame_skip).unwrap();
    env.reset(screen(0), 0, false).unwrap();
    env
}

/// Runs one step against a scoring stub that pays `reward` every tick and
/// reports completion from tick number `done_at` on. Returns the step's
/// outcome and advances `ticks_so_far`.
fn run_step(env: &mut ImageRetroEnv, reward: i32, done_at: u32, ticks_so_far: &mut u32) -> StepInfo {
    let mut next = env.begin_step(0);
    while next == Directive::Tick {
        *ticks_so_far += 1;
        next = env.skipped_frame_step(reward, *ticks_so_far >= done_at);
    }
    env.step_current_frame(screen(1)).unwrap()
}

#[test]
fn new_environment_waits_for_a_reset() {
    let env = ImageRetroEnv::new(combos(), 4).unwrap();
    assert_eq!(env.current_phase(), Phase::Idle);
    assert!(!env.is_ready());
    assert!(!env.is_done());
    assert_eq!(env.frame_skip(), 4);
    assert_eq!(env.num_actions(), 9);
}

#[test]
fn construction_fails_as_the_action_encoder_does() {
    assert_eq!(
        ImageRetroEnv::new(Vec::new(), 4).err(),
        Some(ControllerError::NoButtonValues)
    );
    assert_eq!(
        ImageRetroEnv::new(vec![vec![1], Vec::new()], 4).err(),
        Some(ControllerError::EmptyComboGroup)
    );
}

#[test]
fn reset_observes_the_first_frame_after_zeros() {
    let mut env = ImageRetroEnv::new(combos(), 4).unwrap();
    let info = env.reset(screen(200), 7, false).unwrap();
    assert_eq!(info.reward, 7);
    assert!(!info.is_done);
    assert_eq!(info.observation.len(), 4 * FRAME_SIZE);
    assert!(info.observation[..3 * FRAME_SIZE].iter().all(|value| *value == 0));
    assert!(info.observation[3 * FRAME_SIZE..].iter().all(|value| *value == 200));
    assert!(env.is_ready());
}

#[test]
fn reset_is_ready_even_when_scoring_reports_done() {
    let mut env = ImageRetroEnv::new(combos(), 4).unwrap();
    let info = env.reset(screen(0), 0, true).unwrap();
    assert!(info.is_done);
    assert!(env.is_ready());
}

#[test]
fn reset_clears_the_frames_of_the_episode_before() {
    let mut env = ready_env(1);
    let mut ticks = 0;
    run_step(&mut env, 0, u32::MAX, &mut ticks);
    let info = env.reset(screen(50), 0, false).unwrap();
    assert!(info.observation[..3 * FRAME_SIZE].iter().all(|value| *value == 0));
    assert!(info.observation[3 * FRAME_SIZE..].iter().all(|value| *value == 50));
}

#[test]
fn step_sums_the_rewards_of_all_skipped_ticks() {
    let mut env = ready_env(4);
    let mut ticks = 0;
    let info = run_step(&mut env, 1, u32::MAX, &mut ticks);
    assert_eq!(ticks, 4);
    assert_eq!(info.reward, 4);
    assert!(!info.is_done);
    assert!(env.is_ready());
}

#[test]
fn step_sums_rewards_that_differ_per_tick() {
    let mut env = ready_env(3);
    assert_eq!(env.begin_step(4), Directive::Tick);
    assert_eq!(env.ticks_remaining(), 3);
    assert_eq!(env.skipped_frame_step(5, false), Directive::Tick);
    assert_eq!(env.skipped_frame_step(-2, false), Directive::Tick);
    assert_eq!(env.ticks_remaining(), 1);
    assert_eq!(env.skipped_frame_step(i32::MAX, false), Directive::Capture);
    let info = env.step_current_frame(screen(1)).unwrap();
    assert_eq!(info.reward, 3 + i32::MAX as i64);
}

#[test]
fn extreme_rewards_do_not_overflow() {
    let mut env = ready_env(255);
    let mut next = env.begin_step(0);
    let mut ticks = 0;
    while next == Directive::Tick {
        next = env.skipped_frame_step(i32::MIN, false);
        ticks += 1;
    }
    assert_eq!(ticks, 255);
    let info = env.step_current_frame(screen(1)).unwrap();
    assert_eq!(info.reward, 255 * i32::MIN as i64);
}

#[test]
fn step_without_ticks_captures_at_once() {
    let mut env = ready_env(0);
    assert_eq!(env.begin_step(0), Directive::Capture);
    let info = env.step_current_frame(screen(1)).unwrap();
    assert_eq!(info.reward, 0);
    assert!(!info.is_done);
}

#[test]
fn episode_ends_on_the_step_whose_window_holds_the_done_tick() {
    // Completion is first reported on tick 10; windows are ticks 1-4, 5-8, 9-12.
    let mut env = ready_env(4);
    let mut ticks = 0;
    assert!(!run_step(&mut env, 1, 10, &mut ticks).is_done);
    assert!(env.is_ready());
    assert!(!run_step(&mut env, 1, 10, &mut ticks).is_done);
    assert!(env.is_ready());
    let last = run_step(&mut env, 1, 10, &mut ticks);
    assert!(last.is_done);
    assert_eq!(last.reward, 4);
    assert_eq!(ticks, 12);
    assert!(env.is_done());
    assert_eq!(env.current_phase(), Phase::Terminal);
}

#[test]
fn done_on_the_last_tick_of_a_window_ends_that_step() {
    let mut env = ready_env(4);
    let mut ticks = 0;
    assert!(!run_step(&mut env, 0, 8, &mut ticks).is_done);
    assert!(run_step(&mut env, 0, 8, &mut ticks).is_done);
    assert_eq!(ticks, 8);
}

#[test]
fn done_on_an_early_tick_is_not_forgotten() {
    // Only the first tick of the window reports completion.
    let mut env = ready_env(3);
    env.begin_step(0);
    env.skipped_frame_step(0, true);
    env.skipped_frame_step(0, false);
    env.skipped_frame_step(0, false);
    assert!(env.step_current_frame(screen(1)).unwrap().is_done);
    assert!(env.is_done());
}

#[test]
fn reset_leads_out_of_terminal() {
    let mut env = ready_env(1);
    let mut ticks = 0;
    assert!(run_step(&mut env, 0, 1, &mut ticks).is_done);
    assert!(!env.is_ready());
    env.reset(screen(0), 0, false).unwrap();
    assert!(env.is_ready());
}

#[test]
fn observation_pools_the_two_newest_frames() {
    let mut env = ImageRetroEnv::new(combos(), 1).unwrap();
    env.reset(screen(90), 0, false).unwrap();
    env.begin_step(0);
    env.skipped_frame_step(0, false);
    let info = env.step_current_frame(screen(40)).unwrap();
    // Frames: zero, zero, 90, 40; the newest slot is max(40, 90).
    assert!(info.observation[..2 * FRAME_SIZE].iter().all(|value| *value == 0));
    assert!(info.observation[2 * FRAME_SIZE..].iter().all(|value| *value == 90));
    env.begin_step(0);
    env.skipped_frame_step(0, false);
    let info = env.step_current_frame(screen(10)).unwrap();
    // Frames: zero, 90, 40, 10; the newest slot is max(10, 40).
    assert!(info.observation[FRAME_SIZE..2 * FRAME_SIZE].iter().all(|value| *value == 90));
    assert!(info.observation[2 * FRAME_SIZE..].iter().all(|value| *value == 40));
}

#[test]
fn missing_screen_is_reported_and_changes_nothing() {
    let mut env = ImageRetroEnv::new(combos(), 2).unwrap();
    assert_eq!(env.reset(None, 0, false).err(), Some(EnvError::ScreenUnavailable));
    assert_eq!(env.current_phase(), Phase::Idle);
    env.reset(screen(0), 0, false).unwrap();
    env.begin_step(0);
    env.skipped_frame_step(3, false);
    env.skipped_frame_step(4, false);
    assert_eq!(env.step_current_frame(None).err(), Some(EnvError::ScreenUnavailable));
    assert_eq!(env.current_phase(), Phase::Stepping);
    assert_eq!(env.step_current_frame(screen(1)).unwrap().reward, 7);
}

#[test]
fn bad_screen_is_reported_with_its_cause() {
    let mut env = ImageRetroEnv::new(combos(), 2).unwrap();
    assert_eq!(
        env.reset(Some((vec![0u8; 10], 84, 84)), 0, false).err(),
        Some(EnvError::BadFrame(FrameError::LengthMismatch))
    );
    assert_eq!(
        env.reset(Some((Vec::new(), 2_000_000, 0)), 0, false).err(),
        Some(EnvError::BadFrame(FrameError::TooWide))
    );
}

#[test]
fn bitmask_of_the_step_in_progress_is_that_of_its_action() {
    let mut env = ready_env(2);
    env.begin_step(5);
    // 5 = 2 + 3 * 1: 32 | 64.
    assert_eq!(*env.pending_bitmask(), vec![0, 0, 0, 0, 0, 1, 1, 0]);
    assert_eq!(*env.get_button_bitmask(5), vec![0, 0, 0, 0, 0, 1, 1, 0]);
    assert_eq!(*env.get_button_bitmask(0), vec![0u8; 8]);
}
