use kindle_dashboard::backend::{
    duration_to_ms, gray_of, gray_row, poll_outcome, poll_timeout, should_flush, PollOutcome, Rgb8, SuspendAction,
    SuspendCycle, SuspendEvent, SuspendPhase,
};

#[test]
fn gray_levels() {
    assert_eq!(gray_of(Rgb8 { r: 255, g: 255, b: 255 }, false), 255);
    assert_eq!(gray_of(Rgb8 { r: 0, g: 0, b: 0 }, false), 0);
    assert_eq!(gray_of(Rgb8 { r: 255, g: 0, b: 0 }, false), 76);
    assert_eq!(gray_of(Rgb8 { r: 100, g: 150, b: 200 }, false), 140);
}

#[test]
fn black_and_white_threshold() {
    assert_eq!(gray_of(Rgb8 { r: 255, g: 0, b: 0 }, true), 0x00);
    assert_eq!(gray_of(Rgb8 { r: 128, g: 128, b: 128 }, true), 0xff);
    assert_eq!(gray_of(Rgb8 { r: 127, g: 127, b: 127 }, true), 0x00);
}

#[test]
fn gray_row_picks_the_row() {
    let px = |v: u8| Rgb8 { r: v, g: v, b: v };
    let frame = vec![px(0), px(10), px(20), px(30), px(40), px(50)];
    assert_eq!(gray_row(&frame, 1, 3, false), vec![30, 40, 50]);
    assert_eq!(gray_row(&frame, 0, 3, false), vec![0, 10, 20]);
}

#[test]
fn flush_needs_dirty_area() {
    assert!(!should_flush(0, 10));
    assert!(!should_flush(10, 0));
    assert!(should_flush(1, 1));
}

#[test]
fn timeouts_clamped() {
    assert_eq!(duration_to_ms(0), 1);
    assert_eq!(duration_to_ms(250), 250);
    assert_eq!(duration_to_ms(u128::MAX), i32::MAX);
}

#[test]
fn poll_timeouts() {
    assert_eq!(poll_timeout(false, None), -1);
    assert_eq!(poll_timeout(false, Some(1000)), 1000);
    assert_eq!(poll_timeout(true, Some(1000)), 33);
    assert_eq!(poll_timeout(true, Some(5)), 5);
    assert_eq!(poll_timeout(true, None), 33);
    assert_eq!(poll_timeout(false, Some(0)), 1);
}

#[test]
fn poll_results() {
    assert_eq!(poll_outcome(-1, true, 0, 0), PollOutcome::Retry);
    assert_eq!(poll_outcome(-1, false, 0, 0), PollOutcome::Failed);
    assert_eq!(poll_outcome(1, false, 0x010, 0), PollOutcome::DescriptorDied);
    assert_eq!(poll_outcome(1, false, 0, 0x020), PollOutcome::DescriptorDied);
    assert_eq!(poll_outcome(1, false, 0, 0x001), PollOutcome::Ready { run_queued: true, touched: false });
    assert_eq!(poll_outcome(1, false, 0x001, 0), PollOutcome::Ready { run_queued: false, touched: true });
    assert_eq!(poll_outcome(0, false, 0, 0), PollOutcome::Ready { run_queued: false, touched: false });
}

fn checked(now: u128, queue_empty: bool) -> SuspendEvent {
    SuspendEvent::Checked {
        now,
        has_schedule: true,
        has_wakealarm: true,
        stay_awake_nanos: 8_000_000_000,
        animating: false,
        queue_empty,
    }
}

#[test]
fn suspend_only_when_idle() {
    let mut c = SuspendCycle::new(1_000_000_000);
    assert_eq!(c.step(checked(8_999_999_999, true)), SuspendAction::Continue);
    assert_eq!(c.step(checked(10_000_000_000, false)), SuspendAction::Continue);
    assert_eq!(c.phase, SuspendPhase::Awake);
    assert_eq!(c.step(checked(9_000_000_000, true)), SuspendAction::ArmWakealarm);
    assert_eq!(c.phase, SuspendPhase::Arming);
    let mut c = SuspendCycle::new(0);
    let no_alarm = SuspendEvent::Checked {
        now: 9_000_000_000,
        has_schedule: true,
        has_wakealarm: false,
        stay_awake_nanos: 1,
        animating: false,
        queue_empty: true,
    };
    assert_eq!(c.step(no_alarm), SuspendAction::Continue);
}

#[test]
fn no_suspend_without_wake_source() {
    let mut c = SuspendCycle { phase: SuspendPhase::Arming, last_interaction: 0 };
    assert_eq!(c.step(SuspendEvent::Armed { ok: false, has_touch: false }), SuspendAction::Continue);
    assert_eq!(c.phase, SuspendPhase::Awake);
    let mut c = SuspendCycle { phase: SuspendPhase::Arming, last_interaction: 0 };
    assert_eq!(c.step(SuspendEvent::Armed { ok: false, has_touch: true }), SuspendAction::FlushAndSuspend);
    let mut c = SuspendCycle { phase: SuspendPhase::Arming, last_interaction: 0 };
    assert_eq!(c.step(SuspendEvent::Armed { ok: true, has_touch: false }), SuspendAction::FlushAndSuspend);
    assert_eq!(c.phase, SuspendPhase::Suspending);
}

#[test]
fn on_wake_only_after_real_suspend() {
    let mut c = SuspendCycle { phase: SuspendPhase::Suspending, last_interaction: 5 };
    assert_eq!(c.step(SuspendEvent::Suspended { ok: false, now: 100 }), SuspendAction::RestartLoop);
    assert_eq!(c.phase, SuspendPhase::Awake);
    assert_eq!(c.last_interaction, 100);
    let mut c = SuspendCycle { phase: SuspendPhase::Suspending, last_interaction: 5 };
    assert_eq!(c.step(SuspendEvent::Suspended { ok: true, now: 100 }), SuspendAction::RunOnWake);
    assert_eq!(c.phase, SuspendPhase::Waking);
    assert_eq!(c.last_interaction, 5);
}

#[test]
fn window_restarts_after_slow_on_wake() {
    let mut c = SuspendCycle::new(0);
    assert_eq!(c.step(checked(8_000_000_000, true)), SuspendAction::ArmWakealarm);
    assert_eq!(c.step(SuspendEvent::Armed { ok: true, has_touch: false }), SuspendAction::FlushAndSuspend);
    assert_eq!(c.step(SuspendEvent::Suspended { ok: true, now: 9_000_000_000 }), SuspendAction::RunOnWake);
    // An idle check while the callback is still running changes nothing.
    assert_eq!(c.step(checked(30_000_000_000, true)), SuspendAction::Continue);
    // The callback took 20 s, far longer than the 8 s window.
    assert_eq!(c.step(SuspendEvent::OnWakeReturned { now: 29_000_000_000 }), SuspendAction::RestartLoop);
    assert_eq!(c.last_interaction, 29_000_000_000);
    assert_eq!(c.step(checked(30_000_000_000, true)), SuspendAction::Continue);
    assert_eq!(c.step(checked(37_000_000_000, true)), SuspendAction::ArmWakealarm);
}

#[test]
fn touch_restarts_window() {
    let mut c = SuspendCycle::new(0);
    assert_eq!(c.step(SuspendEvent::Touched { now: 7_000_000_000 }), SuspendAction::Continue);
    assert_eq!(c.step(checked(9_000_000_000, true)), SuspendAction::Continue);
    assert_eq!(c.step(checked(15_000_000_000, true)), SuspendAction::ArmWakealarm);
}

use kindle_dashboard::backend::{loop_step, LoopAction, LoopEvent, LoopStage};

#[test]
fn loop_pass_order() {
    let (s, a) = loop_step(LoopStage::SuspendCheck, LoopEvent::SuspendDone { restarted: false });
    assert_eq!((s, a), (LoopStage::Poll, LoopAction::Poll));
    let (s, a) = loop_step(s, LoopEvent::Polled(PollOutcome::Ready { run_queued: true, touched: true }));
    assert_eq!((s, a), (LoopStage::Queue { touched: true }, LoopAction::RunQueued));
    let (s, a) = loop_step(s, LoopEvent::QueueDone);
    assert_eq!((s, a), (LoopStage::Quit { touched: true }, LoopAction::ReadQuitFlag));
    let (s, a) = loop_step(s, LoopEvent::QuitFlag(false));
    assert_eq!((s, a), (LoopStage::Dispatch { touched: true }, LoopAction::DispatchAndDraw { touched: true }));
    let (s, a) = loop_step(s, LoopEvent::Dispatched);
    assert_eq!((s, a), (LoopStage::SuspendCheck, LoopAction::CheckSuspend));
}

#[test]
fn loop_restarts_after_suspend_and_retry() {
    let (s, a) = loop_step(LoopStage::SuspendCheck, LoopEvent::SuspendDone { restarted: true });
    assert_eq!((s, a), (LoopStage::SuspendCheck, LoopAction::CheckSuspend));
    let (s, a) = loop_step(LoopStage::Poll, LoopEvent::Polled(PollOutcome::Retry));
    assert_eq!((s, a), (LoopStage::SuspendCheck, LoopAction::CheckSuspend));
}

#[test]
fn loop_quits_before_drawing() {
    let (s, a) = loop_step(LoopStage::Poll, LoopEvent::Polled(PollOutcome::Ready { run_queued: false, touched: false }));
    assert_eq!((s, a), (LoopStage::Quit { touched: false }, LoopAction::ReadQuitFlag));
    let (s, a) = loop_step(s, LoopEvent::QuitFlag(true));
    assert_eq!((s, a), (LoopStage::Exited { ok: true }, LoopAction::ExitOk));
    assert_eq!(loop_step(s, LoopEvent::Dispatched), (LoopStage::Exited { ok: true }, LoopAction::ExitOk));
}

#[test]
fn loop_exits_on_poll_failure() {
    assert_eq!(
        loop_step(LoopStage::Poll, LoopEvent::Polled(PollOutcome::Failed)),
        (LoopStage::Exited { ok: false }, LoopAction::ExitWithError)
    );
    assert_eq!(
        loop_step(LoopStage::Poll, LoopEvent::Polled(PollOutcome::DescriptorDied)),
        (LoopStage::Exited { ok: false }, LoopAction::ExitWithError)
    );
}

#[test]
fn loop_ignores_out_of_order_events() {
    assert_eq!(loop_step(LoopStage::Poll, LoopEvent::QueueDone), (LoopStage::Poll, LoopAction::Poll));
}
