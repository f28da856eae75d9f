//! The pace of a local preview: when it ends, when its next frame is due, and when it reports.
use crate::time::Duration;
use vstd::prelude::*;

verus! {

/// The time between two frames of a preview, thirty in a second, in nanoseconds.
pub const PREVIEW_FRAME_INTERVAL: u64 = 33_333_333;

/// The time between two reports of a preview, in nanoseconds.
pub const PREVIEW_REPORT_INTERVAL: u128 = 1_000_000_000;

/// Paces a preview. Times are lengths of time since the preview was started.
#[derive(Clone, Copy, Debug)]
pub struct PreviewPace {
    deadline: Option<Duration>,
    next_frame_at: Duration,
    report_started: Duration,
}

/// The state of a [`PreviewPace`].
pub struct PaceView {
    pub deadline: Option<Duration>,
    pub next_frame_at: Duration,
    pub report_started: Duration,
}

impl View for PreviewPace {
    type V = PaceView;

    closed spec fn view(&self) -> PaceView {
        PaceView {
            deadline: self.deadline,
            next_frame_at: self.next_frame_at,
            report_started: self.report_started,
        }
    }
}

impl PaceView {
    /// When the frame behind the last one is due.
    pub open spec fn next(self) -> Duration {
        self.next_frame_at.plus(Duration { nanos: PREVIEW_FRAME_INTERVAL as u128 })
    }

    /// The pace at the start of a preview of some seconds.
    pub open spec fn begun(duration_seconds: u64) -> PaceView {
        PaceView {
            deadline: if duration_seconds == 0 {
                None
            } else {
                Some(Duration { nanos: (duration_seconds * 1_000_000_000) as u128 })
            },
            next_frame_at: Duration { nanos: 0 },
            report_started: Duration { nanos: 0 },
        }
    }

    /// Whether a preview goes on.
    pub open spec fn going_on(self, now: Duration, open: bool) -> bool {
        open && match self.deadline {
            None => true,
            Some(deadline) => now.nanos < deadline.nanos,
        }
    }

    /// The pace after a frame.
    pub open spec fn paced(self, now: Duration) -> PaceView {
        PaceView {
            next_frame_at: if now.nanos < self.next().nanos {
                self.next()
            } else {
                now
            },
            ..self
        }
    }

    /// The pace after a look at the report, and the time that a report then covers.
    pub open spec fn reported(self, now: Duration) -> (PaceView, Option<Duration>) {
        let passed = now.minus(self.report_started);
        if passed.nanos >= PREVIEW_REPORT_INTERVAL {
            (PaceView { report_started: now, ..self }, Some(passed))
        } else {
            (self, None)
        }
    }
}

impl PreviewPace {
    /// A preview of some seconds, or without an end where that number is zero.
    pub fn new(duration_seconds: u64) -> (pace: PreviewPace)
        ensures
            pace@ == PaceView::begun(duration_seconds),
    {
        PreviewPace {
            deadline: if duration_seconds == 0 {
                None
            } else {
                Some(Duration::from_secs(duration_seconds))
            },
            next_frame_at: Duration::zero(),
            report_started: Duration::zero(),
        }
    }

    /// Whether the preview goes on: its window is open and its time is not over.
    pub fn goes_on(&self, now: Duration, open: bool) -> (result: bool)
        ensures
            result == self@.going_on(now, open),
    {
        open && match self.deadline {
            None => true,
            Some(deadline) => now.nanos < deadline.nanos,
        }
    }

    /// For how long to sleep until the next frame is due. A preview that is late starts afresh.
    pub fn pace(&mut self, now: Duration) -> (sleep: Duration)
        ensures
            sleep == old(self)@.next().minus(now),
            final(self)@ == old(self)@.paced(now),
    {
        let interval = Duration::from_nanos(PREVIEW_FRAME_INTERVAL);
        let next = self.next_frame_at.saturating_add(interval);
        self.next_frame_at = if now.nanos < next.nanos {
            next
        } else {
            now
        };
        next.saturating_sub(now)
    }

    /// The time that a report covers, once one is due. The next one covers what follows.
    pub fn report_due(&mut self, now: Duration) -> (covered: Option<Duration>)
        ensures
            final(self)@ == old(self)@.reported(now).0,
            covered == old(self)@.reported(now).1,
    {
        let passed = now.saturating_sub(self.report_started);
        if passed.nanos < PREVIEW_REPORT_INTERVAL {
            return None;
        }
        self.report_started = now;
        Some(passed)
    }
}

/// A preview of some seconds ends behind them, one without a number of seconds goes on, and both end
/// when their window is closed.
pub proof fn law_preview_ends_in_time(duration_seconds: u64, now: Duration)
    ensures
        !PaceView::begun(duration_seconds).going_on(now, false),
        PaceView::begun(0).going_on(now, true),
        duration_seconds > 0 ==> (PaceView::begun(duration_seconds).going_on(now, true) <==> now.nanos
            < duration_seconds * 1_000_000_000),
{
    assert(duration_seconds * 1_000_000_000 <= u128::MAX);
}

/// Frames of a preview are a thirtieth of a second apart: while the preview is in time each is due
/// 33,333,333 nanoseconds behind the one before; behind a frame that was late the count begins anew.
pub proof fn law_preview_frames_are_apart(pace: PaceView, now: Duration)
    requires
        pace.next_frame_at.nanos <= 1_000_000_000_000_000_000,
    ensures
        ({
            let due = pace.next_frame_at.nanos + 33_333_333;
            &&& pace.next().nanos == due
            &&& pace.paced(now).next_frame_at.nanos == (if now.nanos < due {
                due
            } else {
                now.nanos as int
            })
            &&& pace.paced(now).deadline == pace.deadline
            &&& pace.paced(now).report_started == pace.report_started
        }),
{
}

/// Reports cover the time without gaps, at least one second each.
pub proof fn law_reports_cover_the_time(pace: PaceView, now: Duration)
    ensures
        ({
            let (after, covered) = pace.reported(now);
            let passed = now.nanos - pace.report_started.nanos;
            &&& covered is Some <==> passed >= 1_000_000_000
            &&& covered is Some ==> covered->Some_0.nanos == passed && after.report_started == now
            &&& covered is None ==> after == pace
            &&& after.deadline == pace.deadline
            &&& after.next_frame_at == pace.next_frame_at
        }),
{
}

} // verus!
