use oscmidi::callback_plan::{after_render, plan_callback, AfterRender, CallbackAction, CallbackPlan};

#[test]
fn callbacks_without_whole_frames_do_nothing() {
    assert_eq!(
        plan_callback(512, 0, 1024, true, false, 0),
        CallbackPlan { frames: 0, remainder: 0, drain_midi: false, action: CallbackAction::Idle }
    );
    assert_eq!(plan_callback(1, 2, 1024, true, false, 0).action, CallbackAction::Idle);
}

#[test]
fn oversized_blocks_are_overruns() {
    let plan = plan_callback(2 * 2048, 2, 1024, true, false, 256);
    assert_eq!(plan.frames, 2048);
    assert_eq!(plan.action, CallbackAction::Overrun);
    assert!(!plan.drain_midi);
}

#[test]
fn busy_plugin_replays_the_last_block() {
    let plan = plan_callback(512, 2, 1024, false, true, 256);
    assert_eq!(plan.action, CallbackAction::Replay);
    assert!(plan.drain_midi);
}

#[test]
fn rendering_sends_pending_resets_and_tracks_block_size() {
    let plan = plan_callback(2 * 480 + 1, 2, 1024, true, true, 256);
    assert_eq!(plan.frames, 480);
    assert_eq!(plan.remainder, 1);
    assert_eq!(plan.action, CallbackAction::Render { send_reset: true, new_block_size: Some(480) });
    let same = plan_callback(3 * 256, 3, 1024, true, false, 256);
    assert_eq!(same.action, CallbackAction::Render { send_reset: false, new_block_size: None });
}

#[test]
fn plugin_results_decide_the_output() {
    assert_eq!(after_render(false, 2), AfterRender::Failed);
    assert_eq!(after_render(true, 0), AfterRender::Silent);
    assert_eq!(after_render(true, 2), AfterRender::Mix);
}
