use vstd::prelude::*;
use crate::countdown::{sort_by_countdown, sorted_by_rank, with_rank};
use crate::layout::{frame_items, frame_texts, TextItem};
use crate::outcome::FetchOutcome;
use crate::record::ArrivalRecord;

verus! {

/// Where the polling cycle stands.
#[derive(Clone, Copy, Debug, PartialEq, Eq, Structural)]
pub enum Phase {
    /// Between cycles: the next tick may start a fetch.
    Idle,
    /// A request is out; the next event is its outcome.
    Fetching,
    /// Frames of the current arrivals are being shown until the poll
    /// interval has passed.
    Rendering,
}

/// What the program that runs the scheduler reports back to it.
#[derive(Clone, Debug)]
pub enum Event {
    /// The clock read `now_ms` while the scheduler was idle.
    Tick { now_ms: u64 },
    /// The request of this cycle ended with `outcome`.
    Fetched { outcome: FetchOutcome },
    /// A frame was published to the panel at `now_ms`.
    Swapped { now_ms: u64 },
}

/// What the scheduler asks the program to do next.
#[derive(Clone, Debug)]
pub enum Action {
    /// Make one request to the tracker and answer with `Fetched`.
    Fetch,
    /// Clear the back buffer, draw these texts, swap, and answer with
    /// `Swapped`.
    Draw(Vec<TextItem>),
    /// Clear the back buffer to black, then answer with `Tick`. Nothing is
    /// swapped, so the panel keeps its last frame until the next one.
    ClearToBlack,
    /// Log this outcome, then answer with `Tick`. Headless, every outcome is
    /// reported; on the panel, only those that leave the frame as it is.
    Report(FetchOutcome),
    /// Wait this many milliseconds, then answer with `Tick`.
    Sleep(u64),
    /// The event does not belong to the current phase; nothing to do.
    Nothing,
}

/// The polling-and-rendering cycle: fetch, then render (or report) until the
/// poll interval has passed, then fetch again.
pub struct Scheduler {
    pub phase: Phase,
    /// Whether the panel is off and outcomes are logged instead.
    pub headless: bool,
    pub poll_interval_ms: u64,
    /// When the current (or last) cycle began.
    pub cycle_start_ms: u64,
    /// Whether any cycle has begun.
    pub started: bool,
    /// The last arrivals worth showing, soonest first.
    pub rows: Vec<ArrivalRecord>,
}

/// Milliseconds from `start` to `now`; a clock that went back counts as none.
pub open spec fn elapsed(start: u64, now: u64) -> int {
    if now >= start {
        now - start
    } else {
        0
    }
}

/// `w` is `v` ordered by countdown, stably.
pub open spec fn sorts_to(v: Seq<ArrivalRecord>, w: Seq<ArrivalRecord>) -> bool {
    &&& sorted_by_rank(w)
    &&& forall|k: int| #[trigger] with_rank(w, k) == with_rank(v, k)
    &&& w.len() == v.len()
}

/// `o2` is `o` with its arrivals, if any, ordered by countdown.
pub open spec fn ordered_outcome(o: FetchOutcome, o2: FetchOutcome) -> bool {
    match o {
        FetchOutcome::Arrivals(v) => o2 is Arrivals && sorts_to(v@, o2->Arrivals_0@),
        _ => o2@ == o@,
    }
}

/// Arrivals replace what the sign shows only when there is at least one.
pub open spec fn replaces_rows(o: FetchOutcome) -> bool {
    o is Arrivals && o->Arrivals_0@.len() > 0
}

impl Scheduler {
    pub open spec fn wf(&self) -> bool {
        &&& sorted_by_rank(self.rows@)
        &&& (self.headless ==> self.phase != Phase::Rendering)
    }

    /// A scheduler that has not begun a cycle and has nothing to show.
    pub fn new(headless: bool, poll_interval_ms: u64) -> (s: Scheduler)
        ensures
            s.wf(),
            s.phase == Phase::Idle,
            s.headless == headless,
            s.poll_interval_ms == poll_interval_ms,
            !s.started,
            s.rows@.len() == 0,
    {
        Scheduler {
            phase: Phase::Idle,
            headless,
            poll_interval_ms,
            cycle_start_ms: 0,
            started: false,
            rows: Vec::new(),
        }
    }

    /// Orders the arrivals of an outcome by countdown; other outcomes pass
    /// through.
    fn order(outcome: FetchOutcome) -> (r: FetchOutcome)
        ensures
            ordered_outcome(outcome, r),
    {
        match outcome {
            FetchOutcome::Arrivals(v) => FetchOutcome::Arrivals(sort_by_countdown(v)),
            other => other,
        }
    }

    /// Takes one event and says what to do next.
    pub fn step(&mut self, event: Event) -> (a: Action)
        requires
            old(self).wf(),
        ensures
            final(self).wf(),
            final(self).headless == old(self).headless,
            final(self).poll_interval_ms == old(self).poll_interval_ms,
            old(self).headless ==> !(a is Draw) && !(a is ClearToBlack),
            old(self).phase == Phase::Fetching && event is Fetched && !replaces_rows(
                event->outcome,
            ) ==> !(a is Draw) && !(a is ClearToBlack),
            match (old(self).phase, event) {
                (Phase::Idle, Event::Tick { now_ms }) => if !old(self).started
                    || elapsed(old(self).cycle_start_ms, now_ms) >= old(self).poll_interval_ms {
                    &&& a is Fetch
                    &&& final(self).phase == Phase::Fetching
                    &&& final(self).cycle_start_ms == now_ms
                    &&& final(self).started
                    &&& final(self).rows@ == old(self).rows@
                } else {
                    &&& a == Action::Sleep(
                        (old(self).poll_interval_ms - elapsed(old(self).cycle_start_ms, now_ms)) as u64,
                    )
                    &&& *final(self) == *old(self)
                },
                (Phase::Fetching, Event::Fetched { outcome }) => {
                    &&& final(self).cycle_start_ms == old(self).cycle_start_ms
                    &&& final(self).started == old(self).started
                    &&& if replaces_rows(outcome) {
                        sorts_to(outcome->Arrivals_0@, final(self).rows@)
                    } else {
                        final(self).rows@ == old(self).rows@
                    }
                    &&& if old(self).headless || !replaces_rows(outcome) {
                        &&& final(self).phase == Phase::Idle
                        &&& a is Report
                        &&& ordered_outcome(outcome, a->Report_0)
                    } else {
                        &&& final(self).phase == Phase::Rendering
                        &&& a is Draw
                        &&& a->Draw_0@ == frame_items(final(self).rows@)
                    }
                },
                (Phase::Rendering, Event::Swapped { now_ms }) => {
                    &&& final(self).rows@ == old(self).rows@
                    &&& final(self).cycle_start_ms == old(self).cycle_start_ms
                    &&& final(self).started == old(self).started
                    &&& if elapsed(old(self).cycle_start_ms, now_ms) > old(self).poll_interval_ms {
                        &&& a is ClearToBlack
                        &&& final(self).phase == Phase::Idle
                    } else {
                        &&& a is Draw
                        &&& a->Draw_0@ == frame_items(old(self).rows@)
                        &&& final(self).phase == Phase::Rendering
                    }
                },
                _ => a is Nothing && *final(self) == *old(self),
            },
    {
        match event {
            Event::Tick { now_ms } => {
                if self.phase != Phase::Idle {
                    return Action::Nothing;
                }
                let gone: u64 = if now_ms >= self.cycle_start_ms {
                    now_ms - self.cycle_start_ms
                } else {
                    0
                };
                if !self.started || gone >= self.poll_interval_ms {
                    self.phase = Phase::Fetching;
                    self.cycle_start_ms = now_ms;
                    self.started = true;
                    Action::Fetch
                } else {
                    Action::Sleep(self.poll_interval_ms - gone)
                }
            },
            Event::Fetched { outcome } => {
                if self.phase != Phase::Fetching {
                    return Action::Nothing;
                }
                let ordered = Scheduler::order(outcome);
                let replace = match &ordered {
                    FetchOutcome::Arrivals(v) => v.len() > 0,
                    _ => false,
                };
                if self.headless || !replace {
                    if replace {
                        if let FetchOutcome::Arrivals(v) = &ordered {
                            self.rows = crate::record::duplicate_all(v);
                        }
                    }
                    self.phase = Phase::Idle;
                    Action::Report(ordered)
                } else {
                    if let FetchOutcome::Arrivals(v) = ordered {
                        if replace {
                            self.rows = v;
                        }
                    }
                    self.phase = Phase::Rendering;
                    Action::Draw(frame_texts(&self.rows))
                }
            },
            Event::Swapped { now_ms } => {
                if self.phase != Phase::Rendering {
                    return Action::Nothing;
                }
                let gone: u64 = if now_ms >= self.cycle_start_ms {
                    now_ms - self.cycle_start_ms
                } else {
                    0
                };
                if gone > self.poll_interval_ms {
                    self.phase = Phase::Idle;
                    Action::ClearToBlack
                } else {
                    Action::Draw(frame_texts(&self.rows))
                }
            },
        }
    }
}

} // verus!
