//! The progress aggregator: the one place where the byte counts of all
//! workers meet and a throughput figure is made of them.
use vstd::prelude::*;

verus! {

/// What reaches the aggregator: the size of a file that a worker has
/// stored, the end of the run by cancellation, or its end by completion.
#[derive(Debug, Clone, Copy, PartialEq, Eq, Structural)]
pub enum Msg {
    Size(usize),
    Halt,
    Done,
}

/// What the aggregator has to show after an event.
#[derive(Debug, Clone, Copy, PartialEq, Eq, Structural)]
pub enum Report {
    /// Nothing new.
    Quiet,
    /// A throughput sample, in bytes per second.
    Rate(u64),
    /// The run was cancelled; the aggregator stops.
    Cancelled,
    /// The run is complete; the aggregator stops.
    Completed,
}

/// The aggregator's state: when the last sample was taken, in
/// milliseconds, and the bytes counted since.
#[derive(Debug, Clone, Copy, PartialEq, Eq, Structural)]
pub struct ProgressAggregator {
    pub last_sample: u64,
    pub window: u64,
}

pub const MILLIS_PER_SECOND: u64 = 1000;

/// The whole seconds from `last` to `now`, both in milliseconds; none
/// where `now` is not later.
pub open spec fn elapsed_seconds(last: u64, now: u64) -> int {
    if now >= last {
        (now - last) / (MILLIS_PER_SECOND as int)
    } else {
        0
    }
}

/// The window after `bytes` more were counted. The count stops at the
/// largest value that it can hold.
pub open spec fn counted(window: u64, bytes: usize) -> u64 {
    if window + bytes > u64::MAX {
        u64::MAX
    } else {
        (window + bytes) as u64
    }
}

/// The state and the report after an event at the time `now`. `None`
/// stands for a wait that ended without an event.
///
/// A byte count joins the window; once a second or more has passed since
/// the last sample, the window is divided by the seconds passed, reported
/// and emptied. A wait without an event reports a rate of zero once a
/// second or more has passed since the last sample. The two ends of a run
/// leave the state as it is.
pub open spec fn aggregate(state: ProgressAggregator, event: Option<Msg>, now: u64) -> (
    ProgressAggregator,
    Report,
) {
    let seconds = elapsed_seconds(state.last_sample, now);
    match event {
        Some(Msg::Halt) => (state, Report::Cancelled),
        Some(Msg::Done) => (state, Report::Completed),
        Some(Msg::Size(bytes)) => {
            let window = counted(state.window, bytes);
            if seconds >= 1 {
                (
                    ProgressAggregator { last_sample: now, window: 0 },
                    Report::Rate((window as int / seconds) as u64),
                )
            } else {
                (ProgressAggregator { last_sample: state.last_sample, window }, Report::Quiet)
            }
        },
        None => {
            if seconds >= 1 {
                (ProgressAggregator { last_sample: now, window: 0 }, Report::Rate(0))
            } else {
                (state, Report::Quiet)
            }
        },
    }
}

impl ProgressAggregator {
    /// An aggregator that starts at the time `now` with nothing counted.
    pub fn new(now: u64) -> (state: ProgressAggregator)
        ensures
            state == (ProgressAggregator { last_sample: now, window: 0 }),
    {
        ProgressAggregator { last_sample: now, window: 0 }
    }

    /// Takes one event at the time `now`, in milliseconds, and says what
    /// to show.
    pub fn step(&mut self, event: Option<Msg>, now: u64) -> (report: Report)
        ensures
            (*final(self), report) == aggregate(*old(self), event, now),
    {
        let seconds: u64 = if now >= self.last_sample {
            (now - self.last_sample) / MILLIS_PER_SECOND
        } else {
            0
        };
        match event {
            Some(Msg::Halt) => Report::Cancelled,
            Some(Msg::Done) => Report::Completed,
            Some(Msg::Size(bytes)) => {
                let bytes64: u64 = bytes as u64;
                let window: u64 = if bytes64 > u64::MAX - self.window {
                    u64::MAX
                } else {
                    self.window + bytes64
                };
                if seconds >= 1 {
                    self.last_sample = now;
                    self.window = 0;
                    Report::Rate(window / seconds)
                } else {
                    self.window = window;
                    Report::Quiet
                }
            },
            None => {
                if seconds >= 1 {
                    self.last_sample = now;
                    self.window = 0;
                    Report::Rate(0)
                } else {
                    Report::Quiet
                }
            },
        }
    }
}

/// Whether a report ends the aggregator's loop.
pub fn is_final(report: Report) -> (last: bool)
    ensures
        last == (report is Cancelled || report is Completed),
{
    match report {
        Report::Cancelled => true,
        Report::Completed => true,
        _ => false,
    }
}

/// Between two samples no byte is lost: while less than a second has
/// passed, every count is in the window; the sample that follows reports
/// the window over the seconds passed and starts an empty one.
pub proof fn law_bytes_are_counted(state: ProgressAggregator, bytes: usize, now: u64)
    requires
        state.window + bytes <= u64::MAX,
    ensures
        elapsed_seconds(state.last_sample, now) < 1 ==> aggregate(
            state,
            Some(Msg::Size(bytes)),
            now,
        ) == (
            ProgressAggregator {
                last_sample: state.last_sample,
                window: (state.window + bytes) as u64,
            },
            Report::Quiet,
        ),
        elapsed_seconds(state.last_sample, now) >= 1 ==> aggregate(
            state,
            Some(Msg::Size(bytes)),
            now,
        ) == (
            ProgressAggregator { last_sample: now, window: 0 },
            Report::Rate(
                ((state.window + bytes) / elapsed_seconds(state.last_sample, now)) as u64,
            ),
        ),
{
}

} // verus!
