//! Decisions of the e-ink display backend's event loop: when to suspend to
//! RAM, how long to wait in `poll`, what a `poll` result means, and how a
//! rendered RGB row becomes framebuffer gray levels.

use vstd::prelude::*;

verus! {

/// One rendered pixel.
#[derive(Clone, Copy)]
pub struct Rgb8 {
    pub r: u8,
    pub g: u8,
    pub b: u8,
}

/// Perceived brightness of an RGB pixel: `(77 r + 150 g + 29 b) / 256`.
pub open spec fn luma(r: u8, g: u8, b: u8) -> int {
    (77 * r + 150 * g + 29 * b) / 256
}

/// The gray level written for a pixel: its luma, or pure black/white split at 128.
pub open spec fn gray_level(p: Rgb8, black_and_white: bool) -> u8 {
    let v = luma(p.r, p.g, p.b);
    if black_and_white {
        if v < 128 { 0x00 } else { 0xff }
    } else {
        v as u8
    }
}

/// Gray level of one pixel.
pub fn gray_of(p: Rgb8, black_and_white: bool) -> (g: u8)
    ensures
        g == gray_level(p, black_and_white),
{
    let weighted: u32 = 77 * p.r as u32 + 150 * p.g as u32 + 29 * p.b as u32;
    assert(weighted >> 8 == weighted / 256) by (bit_vector);
    let value = (weighted >> 8) as u8;
    if black_and_white {
        if value < 128 { 0x00 } else { 0xff }
    } else {
        value
    }
}

/// The gray levels of row `row` of a row-major frame `width` pixels wide.
pub fn gray_row(rgb: &[Rgb8], row: usize, width: usize, black_and_white: bool) -> (gray: Vec<u8>)
    requires
        row * width + width <= rgb.len(),
    ensures
        gray@.len() == width,
        forall|i: int| 0 <= i < width ==> gray@[i] == #[trigger] gray_level(rgb@[row * width + i], black_and_white),
{
    let start = row * width;
    let mut gray: Vec<u8> = Vec::new();
    for i in 0..width
        invariant
            start == row * width,
            start + width <= rgb.len(),
            gray@.len() == i,
            forall|k: int| 0 <= k < i ==> gray@[k] == #[trigger] gray_level(rgb@[start + k], black_and_white),
    {
        gray.push(gray_of(rgb[start + i], black_and_white));
    }
    gray
}

/// Luma never needs truncating to fit a byte, and black-and-white output is
/// only ever pure black or pure white.
pub proof fn law_gray_levels(p: Rgb8, black_and_white: bool)
    ensures
        0 <= luma(p.r, p.g, p.b) <= 255,
        black_and_white ==> gray_level(p, true) == 0x00 || gray_level(p, true) == 0xff,
        !black_and_white ==> gray_level(p, false) == luma(p.r, p.g, p.b),
{
}

/// A frame needs flushing only when the renderer reports a non-empty changed region.
pub fn should_flush(dirty_width: u32, dirty_height: u32) -> (r: bool)
    ensures
        r == (dirty_width != 0 && dirty_height != 0),
{
    !(dirty_width == 0 || dirty_height == 0)
}

/// A `poll` timeout in milliseconds: at least 1 (a zero timeout would spin the
/// CPU) and at most `i32::MAX`.
pub open spec fn timeout_ms_spec(millis: u128) -> i32 {
    if millis < 1 {
        1
    } else if millis > i32::MAX {
        i32::MAX
    } else {
        millis as i32
    }
}

/// Converts a duration, given in whole milliseconds, to a `poll` timeout.
pub fn duration_to_ms(millis: u128) -> (r: i32)
    ensures
        r == timeout_ms_spec(millis),
        1 <= r,
{
    if millis < 1 {
        1
    } else if millis > 2147483647 {
        2147483647
    } else {
        millis as i32
    }
}

/// Longest wait while an animation runs: about 30 frames a second.
pub open spec fn animation_frame_ms() -> u128 {
    33
}

/// How long `poll` may block: until the next timer, capped at one animation
/// frame while animating; forever (`-1`) with neither.
pub open spec fn poll_timeout_spec(animating: bool, next_timer_ms: Option<u128>) -> i32 {
    match (animating, next_timer_ms) {
        (true, Some(d)) => timeout_ms_spec(if d < animation_frame_ms() { d } else { animation_frame_ms() }),
        (true, None) => timeout_ms_spec(animation_frame_ms()),
        (false, Some(d)) => timeout_ms_spec(d),
        (false, None) => -1i32,
    }
}

/// The `poll` timeout for the next loop pass; `next_timer_ms` is the time to
/// the next timer in whole milliseconds.
pub fn poll_timeout(animating: bool, next_timer_ms: Option<u128>) -> (r: i32)
    ensures
        r == poll_timeout_spec(animating, next_timer_ms),
{
    match (animating, next_timer_ms) {
        (true, Some(d)) => duration_to_ms(if d < 33 { d } else { 33 }),
        (true, None) => duration_to_ms(33),
        (false, Some(d)) => duration_to_ms(d),
        (false, None) => -1,
    }
}

/// `POLLIN` on Linux.
pub open spec fn pollin() -> i16 {
    0x001
}

/// `POLLERR | POLLHUP | POLLNVAL` on Linux.
pub open spec fn poll_error_bits() -> i16 {
    0x038
}

/// What one `poll` call means for the loop.
#[derive(PartialEq, Eq, Structural, Clone, Copy, Debug)]
pub enum PollOutcome {
    /// Interrupted by a signal: go round again.
    Retry,
    /// `poll` itself failed: stop the loop with an error.
    Failed,
    /// One of the watched descriptors died: stop rather than wait forever.
    DescriptorDied,
    /// Normal wake-up: run queued closures if the wake pipe is readable, and
    /// count touch input as user interaction if the touch device is readable.
    Ready { run_queued: bool, touched: bool },
}

/// The meaning of a `poll` result, given the returned value, whether the
/// error was `EINTR`, and the `revents` of the touch and wake-pipe entries.
pub open spec fn poll_outcome_spec(result: i32, interrupted: bool, touch_revents: i16, wake_revents: i16) -> PollOutcome {
    if result < 0 {
        if interrupted { PollOutcome::Retry } else { PollOutcome::Failed }
    } else if (touch_revents | wake_revents) & poll_error_bits() != 0 {
        PollOutcome::DescriptorDied
    } else {
        PollOutcome::Ready {
            run_queued: wake_revents & pollin() != 0,
            touched: touch_revents & pollin() != 0,
        }
    }
}

/// Classifies a `poll` result.
pub fn poll_outcome(result: i32, interrupted: bool, touch_revents: i16, wake_revents: i16) -> (r: PollOutcome)
    ensures
        r == poll_outcome_spec(result, interrupted, touch_revents, wake_revents),
{
    if result < 0 {
        if interrupted {
            PollOutcome::Retry
        } else {
            PollOutcome::Failed
        }
    } else if (touch_revents | wake_revents) & 0x038 != 0 {
        PollOutcome::DescriptorDied
    } else {
        PollOutcome::Ready { run_queued: wake_revents & 0x001 != 0, touched: touch_revents & 0x001 != 0 }
    }
}

/// Where the display loop stands in its suspend cycle.
#[derive(PartialEq, Eq, Structural, Clone, Copy, Debug)]
pub enum SuspendPhase {
    /// Running the event loop normally.
    Awake,
    /// Waiting for the RTC wakealarm to be armed.
    Arming,
    /// Flushing the last frame and suspending to RAM.
    Suspending,
    /// Back from suspend, running the on-wake callback.
    Waking,
}

/// The suspend cycle's state: its phase and the time of the last user
/// interaction (nanoseconds on the loop's monotonic clock), from which the
/// stay-awake window is measured.
pub struct SuspendCycle {
    pub phase: SuspendPhase,
    pub last_interaction: u128,
}

/// What the display loop reports to the suspend cycle.
pub enum SuspendEvent {
    /// The idle check at time `now`: whether a wake schedule is set and a
    /// wakealarm file was found, the stay-awake window, and whether anything
    /// is animating or queued.
    Checked {
        now: u128,
        has_schedule: bool,
        has_wakealarm: bool,
        stay_awake_nanos: u128,
        animating: bool,
        queue_empty: bool,
    },
    /// Arming the RTC wakealarm succeeded or failed; whether touch input exists.
    Armed { ok: bool, has_touch: bool },
    /// Suspend-to-RAM returned at time `now`, having succeeded or failed.
    Suspended { ok: bool, now: u128 },
    /// The on-wake callback returned at time `now`.
    OnWakeReturned { now: u128 },
    /// Touch input arrived at time `now`.
    Touched { now: u128 },
}

/// What the display loop does next.
#[derive(PartialEq, Eq, Structural, Clone, Copy, Debug)]
pub enum SuspendAction {
    /// Go on with this loop pass (poll, run timers, draw).
    Continue,
    /// Arm the RTC wakealarm for the wake interval.
    ArmWakealarm,
    /// Re-flush the last frame with a full refresh, wait for it, then suspend.
    FlushAndSuspend,
    /// Run the on-wake callback.
    RunOnWake,
    /// Start the next loop pass from the suspend check.
    RestartLoop,
}

/// Time since the last interaction (zero if the clock reads earlier).
pub open spec fn idle_time(now: u128, last: u128) -> int {
    if now >= last { now - last } else { 0 }
}

/// One step of the suspend cycle: the new phase and last-interaction time, and
/// the action. An event that does not belong to the current phase changes
/// nothing.
pub open spec fn suspend_step_spec(phase: SuspendPhase, last: u128, e: SuspendEvent) -> (SuspendPhase, u128, SuspendAction) {
    match e {
        SuspendEvent::Checked { now, has_schedule, has_wakealarm, stay_awake_nanos, animating, queue_empty } => {
            if phase == SuspendPhase::Awake && has_schedule && has_wakealarm && idle_time(now, last)
                >= stay_awake_nanos && !animating && queue_empty {
                (SuspendPhase::Arming, last, SuspendAction::ArmWakealarm)
            } else {
                (phase, last, SuspendAction::Continue)
            }
        },
        SuspendEvent::Armed { ok, has_touch } => if phase != SuspendPhase::Arming {
            (phase, last, SuspendAction::Continue)
        } else if !ok && !has_touch {
            (SuspendPhase::Awake, last, SuspendAction::Continue)
        } else {
            (SuspendPhase::Suspending, last, SuspendAction::FlushAndSuspend)
        },
        SuspendEvent::Suspended { ok, now } => if phase != SuspendPhase::Suspending {
            (phase, last, SuspendAction::Continue)
        } else if ok {
            (SuspendPhase::Waking, last, SuspendAction::RunOnWake)
        } else {
            (SuspendPhase::Awake, now, SuspendAction::RestartLoop)
        },
        SuspendEvent::OnWakeReturned { now } => if phase == SuspendPhase::Waking {
            (SuspendPhase::Awake, now, SuspendAction::RestartLoop)
        } else {
            (phase, last, SuspendAction::Continue)
        },
        SuspendEvent::Touched { now } => if phase == SuspendPhase::Awake {
            (phase, now, SuspendAction::Continue)
        } else {
            (phase, last, SuspendAction::Continue)
        },
    }
}

impl SuspendCycle {
    /// A cycle that starts awake, with its last interaction at `now`.
    pub fn new(now: u128) -> (r: SuspendCycle)
        ensures
            r.phase == SuspendPhase::Awake,
            r.last_interaction == now,
    {
        SuspendCycle { phase: SuspendPhase::Awake, last_interaction: now }
    }

    /// Advances the suspend cycle by one event.
    pub fn step(&mut self, e: SuspendEvent) -> (r: SuspendAction)
        ensures
            (final(self).phase, final(self).last_interaction, r) == suspend_step_spec(
                old(self).phase,
                old(self).last_interaction,
                e,
            ),
    {
        match e {
            SuspendEvent::Checked { now, has_schedule, has_wakealarm, stay_awake_nanos, animating, queue_empty } => {
                let idle: u128 = if now >= self.last_interaction { now - self.last_interaction } else { 0 };
                if self.phase != SuspendPhase::Awake || !has_schedule || !has_wakealarm {
                    SuspendAction::Continue
                } else if idle < stay_awake_nanos || animating || !queue_empty {
                    SuspendAction::Continue
                } else {
                    self.phase = SuspendPhase::Arming;
                    SuspendAction::ArmWakealarm
                }
            },
            SuspendEvent::Armed { ok, has_touch } => {
                if self.phase != SuspendPhase::Arming {
                    SuspendAction::Continue
                } else if !ok && !has_touch {
                    self.phase = SuspendPhase::Awake;
                    SuspendAction::Continue
                } else {
                    self.phase = SuspendPhase::Suspending;
                    SuspendAction::FlushAndSuspend
                }
            },
            SuspendEvent::Suspended { ok, now } => {
                if self.phase != SuspendPhase::Suspending {
                    SuspendAction::Continue
                } else if ok {
                    self.phase = SuspendPhase::Waking;
                    SuspendAction::RunOnWake
                } else {
                    self.phase = SuspendPhase::Awake;
                    self.last_interaction = now;
                    SuspendAction::RestartLoop
                }
            },
            SuspendEvent::OnWakeReturned { now } => {
                if self.phase == SuspendPhase::Waking {
                    self.phase = SuspendPhase::Awake;
                    self.last_interaction = now;
                    SuspendAction::RestartLoop
                } else {
                    SuspendAction::Continue
                }
            },
            SuspendEvent::Touched { now } => {
                if self.phase == SuspendPhase::Awake {
                    self.last_interaction = now;
                }
                SuspendAction::Continue
            },
        }
    }
}

/// The device never suspends without a way to wake up: when the wakealarm
/// could not be armed and there is no touch input, it goes back to running.
pub proof fn law_no_suspend_without_wake_source(last: u128, ok: bool, has_touch: bool)
    ensures
        suspend_step_spec(SuspendPhase::Arming, last, SuspendEvent::Armed { ok, has_touch }).2
            == SuspendAction::FlushAndSuspend <==> (ok || has_touch),
        !ok && !has_touch ==> suspend_step_spec(SuspendPhase::Arming, last, SuspendEvent::Armed { ok, has_touch }).0
            == SuspendPhase::Awake,
{
}

/// The on-wake callback runs only after a suspend that really happened; a
/// failed suspend restarts the stay-awake window at once (so retries are
/// paced) and runs nothing.
pub proof fn law_on_wake_only_after_suspend(phase: SuspendPhase, last: u128, e: SuspendEvent)
    ensures
        suspend_step_spec(phase, last, e).2 == SuspendAction::RunOnWake <==> (phase == SuspendPhase::Suspending
            && e matches SuspendEvent::Suspended { ok: true, .. }),
        phase == SuspendPhase::Suspending ==> (e matches SuspendEvent::Suspended { ok: false, now }
            ==> suspend_step_spec(phase, last, e) == (SuspendPhase::Awake, now, SuspendAction::RestartLoop)),
{
}

/// The stay-awake window after a wake starts when the on-wake callback
/// returns, not before it runs: the loop does not restart while the callback
/// is running, and once it returns at `t`, an idle check at any time less
/// than `stay_awake_nanos` after `t` keeps the device awake, however long the
/// callback took.
pub proof fn law_window_restarts_after_on_wake(
    last: u128,
    t: u128,
    now: u128,
    has_schedule: bool,
    has_wakealarm: bool,
    stay_awake_nanos: u128,
    animating: bool,
    queue_empty: bool,
)
    requires
        t <= now,
        now - t < stay_awake_nanos,
    ensures
        suspend_step_spec(SuspendPhase::Waking, last, SuspendEvent::OnWakeReturned { now: t }) == (
        SuspendPhase::Awake, t, SuspendAction::RestartLoop),
        suspend_step_spec(
            SuspendPhase::Awake,
            t,
            SuspendEvent::Checked { now, has_schedule, has_wakealarm, stay_awake_nanos, animating, queue_empty },
        ).2 == SuspendAction::Continue,
        suspend_step_spec(
            SuspendPhase::Waking,
            last,
            SuspendEvent::Checked { now, has_schedule, has_wakealarm, stay_awake_nanos, animating, queue_empty },
        ) == (SuspendPhase::Waking, last, SuspendAction::Continue),
{
}

/// Suspend is attempted only while awake, with a schedule and a wakealarm,
/// after a full stay-awake window without interaction, and with nothing
/// animating or queued.
pub proof fn law_suspend_only_when_idle(phase: SuspendPhase, last: u128, e: SuspendEvent)
    ensures
        suspend_step_spec(phase, last, e).2 == SuspendAction::ArmWakealarm <==> (phase == SuspendPhase::Awake && (
        e matches SuspendEvent::Checked {
            now,
            has_schedule,
            has_wakealarm,
            stay_awake_nanos,
            animating,
            queue_empty,
        } && has_schedule && has_wakealarm && idle_time(now, last) >= stay_awake_nanos && !animating
            && queue_empty)),
{
}

/// Touch input while running restarts the stay-awake window.
pub proof fn law_touch_resets_window(last: u128, now: u128)
    ensures
        suspend_step_spec(SuspendPhase::Awake, last, SuspendEvent::Touched { now }) == (
        SuspendPhase::Awake, now, SuspendAction::Continue),
{
}

/// A `poll` timeout is `-1` (wait forever) exactly when nothing is animating
/// and no timer is pending; otherwise it lies in `1..=i32::MAX`, and in
/// `1..=33` while animating.
pub proof fn law_poll_timeout_bounds(animating: bool, next_timer_ms: Option<u128>)
    ensures
        (poll_timeout_spec(animating, next_timer_ms) == -1) <==> (!animating && next_timer_ms is None),
        poll_timeout_spec(animating, next_timer_ms) != -1 ==> 1 <= poll_timeout_spec(animating, next_timer_ms),
        animating ==> poll_timeout_spec(animating, next_timer_ms) <= 33,
{
}

/// Where the display loop is within one pass.
#[derive(PartialEq, Eq, Structural, Clone, Copy, Debug)]
pub enum LoopStage {
    /// Start of a pass: the suspend cycle gets its idle check first.
    SuspendCheck,
    /// Waiting in `poll`.
    Poll,
    /// Running the closures queued by other threads (touch seen or not).
    Queue { touched: bool },
    /// Reading the quit flag, after any queued closures ran.
    Quit { touched: bool },
    /// Handling touch, timers and drawing.
    Dispatch { touched: bool },
    /// The loop has ended, cleanly or with an error.
    Exited { ok: bool },
}

/// What the display loop reports back after carrying out an action.
pub enum LoopEvent {
    /// The suspend cycle ran; `restarted` when it suspended and woke (or failed
    /// to) and the pass must begin again.
    SuspendDone { restarted: bool },
    /// `poll` returned, with this meaning.
    Polled(PollOutcome),
    /// The wake pipe was drained and the queued closures ran.
    QueueDone,
    /// The quit flag was read.
    QuitFlag(bool),
    /// Touch, timers and drawing were handled.
    Dispatched,
}

/// What the display loop does next.
#[derive(PartialEq, Eq, Structural, Clone, Copy, Debug)]
pub enum LoopAction {
    /// Run the suspend cycle's idle check (and whatever it leads to).
    CheckSuspend,
    /// Compute the timeout and wait in `poll`.
    Poll,
    /// Drain the wake pipe and run the queued closures.
    RunQueued,
    /// Read the quit flag.
    ReadQuitFlag,
    /// Restart the stay-awake window if touched, feed touch events, update
    /// timers and animations, and draw (flushing a non-empty change).
    DispatchAndDraw { touched: bool },
    /// Leave the loop without error.
    ExitOk,
    /// Leave the loop with an error.
    ExitWithError,
}

/// The action a stage waits to have carried out.
pub open spec fn stage_action(stage: LoopStage) -> LoopAction {
    match stage {
        LoopStage::SuspendCheck => LoopAction::CheckSuspend,
        LoopStage::Poll => LoopAction::Poll,
        LoopStage::Queue { .. } => LoopAction::RunQueued,
        LoopStage::Quit { .. } => LoopAction::ReadQuitFlag,
        LoopStage::Dispatch { touched } => LoopAction::DispatchAndDraw { touched },
        LoopStage::Exited { ok } => if ok { LoopAction::ExitOk } else { LoopAction::ExitWithError },
    }
}

/// One step of a display-loop pass: the next stage, and the action it asks
/// for. An event that does not belong to the current stage changes nothing.
pub open spec fn loop_step_spec(stage: LoopStage, e: LoopEvent) -> LoopStage {
    match (stage, e) {
        (LoopStage::SuspendCheck, LoopEvent::SuspendDone { restarted }) => if restarted {
            LoopStage::SuspendCheck
        } else {
            LoopStage::Poll
        },
        (LoopStage::Poll, LoopEvent::Polled(outcome)) => match outcome {
            PollOutcome::Retry => LoopStage::SuspendCheck,
            PollOutcome::Failed => LoopStage::Exited { ok: false },
            PollOutcome::DescriptorDied => LoopStage::Exited { ok: false },
            PollOutcome::Ready { run_queued, touched } => if run_queued {
                LoopStage::Queue { touched }
            } else {
                LoopStage::Quit { touched }
            },
        },
        (LoopStage::Queue { touched }, LoopEvent::QueueDone) => LoopStage::Quit { touched },
        (LoopStage::Quit { touched }, LoopEvent::QuitFlag(quit)) => if quit {
            LoopStage::Exited { ok: true }
        } else {
            LoopStage::Dispatch { touched }
        },
        (LoopStage::Dispatch { .. }, LoopEvent::Dispatched) => LoopStage::SuspendCheck,
        _ => stage,
    }
}

/// Advances the display loop by one event; returns the new stage and the
/// action it asks for.
pub fn loop_step(stage: LoopStage, e: LoopEvent) -> (r: (LoopStage, LoopAction))
    ensures
        r.0 == loop_step_spec(stage, e),
        r.1 == stage_action(r.0),
{
    let next = match (stage, e) {
        (LoopStage::SuspendCheck, LoopEvent::SuspendDone { restarted }) => {
            if restarted {
                LoopStage::SuspendCheck
            } else {
                LoopStage::Poll
            }
        },
        (LoopStage::Poll, LoopEvent::Polled(outcome)) => match outcome {
            PollOutcome::Retry => LoopStage::SuspendCheck,
            PollOutcome::Failed => LoopStage::Exited { ok: false },
            PollOutcome::DescriptorDied => LoopStage::Exited { ok: false },
            PollOutcome::Ready { run_queued, touched } => {
                if run_queued {
                    LoopStage::Queue { touched }
                } else {
                    LoopStage::Quit { touched }
                }
            },
        },
        (LoopStage::Queue { touched }, LoopEvent::QueueDone) => LoopStage::Quit { touched },
        (LoopStage::Quit { touched }, LoopEvent::QuitFlag(quit)) => {
            if quit {
                LoopStage::Exited { ok: true }
            } else {
                LoopStage::Dispatch { touched }
            }
        },
        (LoopStage::Dispatch { .. }, LoopEvent::Dispatched) => LoopStage::SuspendCheck,
        (s, _) => s,
    };
    let action = match next {
        LoopStage::SuspendCheck => LoopAction::CheckSuspend,
        LoopStage::Poll => LoopAction::Poll,
        LoopStage::Queue { .. } => LoopAction::RunQueued,
        LoopStage::Quit { .. } => LoopAction::ReadQuitFlag,
        LoopStage::Dispatch { touched } => LoopAction::DispatchAndDraw { touched },
        LoopStage::Exited { ok } => {
            if ok {
                LoopAction::ExitOk
            } else {
                LoopAction::ExitWithError
            }
        },
    };
    (next, action)
}

/// Each pass begins with the suspend check, and `poll` is reached only from it:
/// a pass that suspended starts over, and after drawing, an interrupted poll
/// or a failed suspend attempt the next step is again the suspend check.
pub proof fn law_pass_starts_with_suspend_check(stage: LoopStage, e: LoopEvent)
    ensures
        loop_step_spec(stage, e) == LoopStage::Poll ==> stage == LoopStage::SuspendCheck || stage
            == LoopStage::Poll,
        (stage matches LoopStage::Dispatch { .. } && e matches LoopEvent::Dispatched) ==> loop_step_spec(stage, e)
            == LoopStage::SuspendCheck,
        (stage == LoopStage::Poll && e matches LoopEvent::Polled(PollOutcome::Retry)) ==> loop_step_spec(stage, e)
            == LoopStage::SuspendCheck,
        (stage == LoopStage::SuspendCheck && e matches LoopEvent::SuspendDone { restarted: true })
            ==> loop_step_spec(stage, e) == LoopStage::SuspendCheck,
{
}

/// The quit flag is read only after the queued closures have run (when the
/// wake pipe had any), so a closure that asks to quit is honoured in the same
/// pass; and a set quit flag ends the loop cleanly before any touch handling
/// or drawing.
pub proof fn law_quit_after_queue_before_draw(stage: LoopStage, e: LoopEvent)
    ensures
        (loop_step_spec(stage, e) matches LoopStage::Quit { .. } && loop_step_spec(stage, e) != stage) ==> (
        stage matches LoopStage::Queue { .. } || (stage == LoopStage::Poll && e matches LoopEvent::Polled(
            PollOutcome::Ready { run_queued: false, .. },
        ))),
        stage == LoopStage::Poll ==> (e matches LoopEvent::Polled(PollOutcome::Ready { run_queued: true, touched })
            ==> loop_step_spec(stage, e) == (LoopStage::Queue { touched })),
        (stage matches LoopStage::Quit { .. } && e matches LoopEvent::QuitFlag(true)) ==> loop_step_spec(stage, e)
            == (LoopStage::Exited { ok: true }),
        (loop_step_spec(stage, e) matches LoopStage::Dispatch { .. } && loop_step_spec(stage, e) != stage) ==> (
        stage matches LoopStage::Quit { .. } && e matches LoopEvent::QuitFlag(false)),
{
}

/// A failed `poll` or a dead descriptor ends the loop with an error; an ended
/// loop stays ended.
pub proof fn law_poll_failure_exits(stage: LoopStage, e: LoopEvent)
    ensures
        (stage == LoopStage::Poll && (e matches LoopEvent::Polled(PollOutcome::Failed) || e matches LoopEvent::Polled(
            PollOutcome::DescriptorDied,
        ))) ==> loop_step_spec(stage, e) == (LoopStage::Exited { ok: false }),
        stage matches LoopStage::Exited { .. } ==> loop_step_spec(stage, e) == stage,
{
}

/// Touch seen by `poll` is carried through the queue and the quit check to the
/// dispatch step, which restarts the stay-awake window with it.
pub proof fn law_touch_reaches_dispatch(touched: bool)
    ensures
        loop_step_spec(
            loop_step_spec(
                LoopStage::Poll,
                LoopEvent::Polled(PollOutcome::Ready { run_queued: true, touched }),
            ),
            LoopEvent::QueueDone,
        ) == (LoopStage::Quit { touched }),
        loop_step_spec(LoopStage::Quit { touched }, LoopEvent::QuitFlag(false)) == (LoopStage::Dispatch { touched }),
        stage_action(LoopStage::Dispatch { touched }) == (LoopAction::DispatchAndDraw { touched }),
{
}

} // verus!
