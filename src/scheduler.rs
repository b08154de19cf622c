use vstd::prelude::*;
use crate::crawl::{
    delay_after, outcome_models, pending, pending_tasks, record_models, successes, task_models,
    waits_after, window_bounds, window_bounds_at, window_count, window_records,
};
use crate::models::{ChapterTask, NewChapter, ParsedChapter};

verus! {

/// What the batch scheduler asks its driver to do next.
#[derive(Debug)]
pub enum CrawlAction {
    /// Fetch and parse the pending task at this index, then report the outcome.
    FetchChapter(usize),
    /// Write these chapters in one bulk insert.
    InsertBatch(Vec<NewChapter>),
    /// Wait this many seconds before the next window.
    Wait(u64),
    /// The run is over.
    Finished,
}

/// Where the scheduler stands within the current window.
#[derive(Debug, Clone, Copy, PartialEq, Eq, Structural)]
pub enum Stage {
    /// Tasks of the window are being fetched.
    Fetching,
    /// The window's successes have been handed out for writing.
    Flushed,
    /// Every window is done.
    Done,
}

/// Drives the pending tasks of one crawl through fixed-size windows: the
/// tasks of a window one after another, then one write of its successes,
/// then a wait before the next window, none after the last.
pub struct BatchScheduler {
    pub tasks: Vec<ChapterTask>,
    pub windows: Vec<(usize, usize)>,
    pub window: usize,
    pub next: usize,
    pub outcomes: Vec<Option<ParsedChapter>>,
    pub delay_secs: u64,
    pub stage: Stage,
}

impl BatchScheduler {
    /// The window bounds are consecutive slices of the tasks, and the
    /// position and collected outcomes fit the current window.
    pub open spec fn wf(&self) -> bool {
        &&& forall|j: int| 0 <= j < self.windows@.len() ==> (#[trigger] self.windows@[j]).0 <= self.windows@[j].1
            <= self.tasks@.len()
        &&& self.stage != Stage::Done ==> self.window < self.windows@.len()
        &&& self.stage == Stage::Fetching ==> {
            &&& self.windows@[self.window as int].0 <= self.next <= self.windows@[self.window as int].1
            &&& self.outcomes@.len() == self.next - self.windows@[self.window as int].0
        }
    }

    /// The bounds of the current window.
    pub open spec fn bounds(&self) -> (usize, usize) {
        self.windows@[self.window as int]
    }

    /// A scheduler for the tasks of `tasks` whose keys are not among
    /// `existing`, in windows of `batch_size`, waiting `delay_secs` seconds
    /// between windows. Where nothing is pending it is done at once.
    pub fn new(tasks: &Vec<ChapterTask>, existing: &Vec<i32>, batch_size: usize, delay_secs: u64) -> (r: BatchScheduler)
        requires
            batch_size > 0,
        ensures
            r.wf(),
            task_models(r.tasks@) == pending(task_models(tasks@), existing@),
            r.windows@.len() == window_count(r.tasks@.len() as int, batch_size as int),
            forall|j: int| 0 <= j < r.windows@.len() ==> ((#[trigger] r.windows@[j]).0 as int, r.windows@[j].1 as int)
                == window_bounds_at(j, r.tasks@.len() as int, batch_size as int),
            r.delay_secs == delay_secs,
            r.window == 0,
            (r.stage == Stage::Done) == (r.tasks@.len() == 0),
    {
        let pending_list = pending_tasks(tasks, existing);
        let n = pending_list.len();
        let windows = window_bounds(n, batch_size);
        proof {
            crate::laws::law_batch_partition(n as int, batch_size as int);
            assert forall|j: int| 0 <= j < windows@.len() implies (#[trigger] windows@[j]).0 <= windows@[j].1 <= n by {
                let w = window_count(n as int, batch_size as int);
                assert(j * batch_size <= n) by (nonlinear_arith)
                    requires 0 <= j < w, (w - 1) * batch_size < n, batch_size > 0;
            }
        }
        let stage = if n == 0 { Stage::Done } else { Stage::Fetching };
        BatchScheduler {
            tasks: pending_list,
            windows,
            window: 0,
            next: 0,
            outcomes: Vec::new(),
            delay_secs,
            stage,
        }
    }

    /// Whether the run is over.
    pub fn is_finished(&self) -> (r: bool)
        ensures
            r == (self.stage == Stage::Done),
    {
        self.stage == Stage::Done
    }

    /// Whether the scheduler waits for the outcome of a fetch it asked for.
    pub fn awaiting_outcome(&self) -> (r: bool)
        requires
            self.wf(),
        ensures
            r == (self.stage == Stage::Fetching && self.next < self.bounds().1),
    {
        self.stage == Stage::Fetching && self.next < self.windows[self.window].1
    }

    /// Takes the outcome of fetching task `next`: the chapter, or `None`
    /// where the fetch or its parse failed.
    pub fn record(&mut self, outcome: Option<ParsedChapter>)
        requires
            old(self).wf(),
            old(self).stage == Stage::Fetching,
            old(self).next < old(self).bounds().1,
        ensures
            final(self).wf(),
            final(self).next == old(self).next + 1,
            final(self).outcomes@ == old(self).outcomes@.push(outcome),
            final(self).tasks@ == old(self).tasks@,
            final(self).windows@ == old(self).windows@,
            final(self).window == old(self).window,
            final(self).stage == old(self).stage,
            final(self).delay_secs == old(self).delay_secs,
    {
        self.outcomes.push(outcome);
        self.next = self.next + 1;
    }

    fn after_window(&mut self) -> (r: CrawlAction)
        requires
            old(self).wf(),
            old(self).stage == Stage::Flushed,
        ensures
            final(self).wf(),
            final(self).tasks@ == old(self).tasks@,
            final(self).windows@ == old(self).windows@,
            final(self).delay_secs == old(self).delay_secs,
            waits_after(old(self).window as int, old(self).windows@.len() as int) ==> {
                &&& r matches CrawlAction::Wait(d) && d == old(self).delay_secs
                &&& final(self).window == old(self).window + 1
                &&& final(self).stage == Stage::Fetching
                &&& final(self).next == final(self).bounds().0
                &&& final(self).outcomes@.len() == 0
            },
            !waits_after(old(self).window as int, old(self).windows@.len() as int) ==> {
                &&& r is Finished
                &&& final(self).stage == Stage::Done
                &&& final(self).window == old(self).window
            },
    {
        if delay_after(self.window, self.windows.len()) {
            self.window = self.window + 1;
            self.next = self.windows[self.window].0;
            self.outcomes = Vec::new();
            self.stage = Stage::Fetching;
            CrawlAction::Wait(self.delay_secs)
        } else {
            self.stage = Stage::Done;
            CrawlAction::Finished
        }
    }

    /// The next thing to do. While the current window has unfetched tasks:
    /// fetch the next one (the state is left as it is until `record`). Once
    /// all are fetched: write the window's successes, where there are any;
    /// then wait before the next window, or finish after the last one.
    pub fn next_action(&mut self) -> (r: CrawlAction)
        requires
            old(self).wf(),
        ensures
            final(self).wf(),
            final(self).tasks@ == old(self).tasks@,
            final(self).windows@ == old(self).windows@,
            final(self).delay_secs == old(self).delay_secs,
            old(self).stage == Stage::Done ==> r is Finished && final(self).stage == Stage::Done,
            old(self).stage == Stage::Fetching && old(self).next < old(self).bounds().1 ==> {
                &&& r matches CrawlAction::FetchChapter(i) && i == old(self).next
                &&& *final(self) == *old(self)
            },
            r matches CrawlAction::InsertBatch(recs) ==> {
                &&& old(self).stage == Stage::Fetching
                &&& old(self).next == old(self).bounds().1
                &&& recs@.len() > 0
                &&& record_models(recs@) == successes(
                    task_models(old(self).tasks@).subrange(old(self).bounds().0 as int, old(self).bounds().1 as int),
                    outcome_models(old(self).outcomes@),
                )
                &&& final(self).stage == Stage::Flushed
                &&& final(self).window == old(self).window
            },
            old(self).stage == Stage::Fetching && old(self).next == old(self).bounds().1 && successes(
                task_models(old(self).tasks@).subrange(old(self).bounds().0 as int, old(self).bounds().1 as int),
                outcome_models(old(self).outcomes@),
            ).len() > 0 ==> r is InsertBatch,
            (old(self).stage == Stage::Flushed || (old(self).stage == Stage::Fetching
                && old(self).next == old(self).bounds().1 && successes(
                task_models(old(self).tasks@).subrange(old(self).bounds().0 as int, old(self).bounds().1 as int),
                outcome_models(old(self).outcomes@),
            ).len() == 0)) ==> {
                &&& waits_after(old(self).window as int, old(self).windows@.len() as int) ==> {
                    &&& r matches CrawlAction::Wait(d) && d == old(self).delay_secs
                    &&& final(self).window == old(self).window + 1
                    &&& final(self).stage == Stage::Fetching
                    &&& final(self).next == final(self).bounds().0
                    &&& final(self).outcomes@.len() == 0
                }
                &&& !waits_after(old(self).window as int, old(self).windows@.len() as int) ==> {
                    &&& r is Finished
                    &&& final(self).stage == Stage::Done
                    &&& final(self).window == old(self).window
                }
            },
            r matches CrawlAction::Wait(d) ==> {
                &&& d == old(self).delay_secs
                &&& old(self).stage != Stage::Done
                &&& waits_after(old(self).window as int, old(self).windows@.len() as int)
                &&& final(self).window == old(self).window + 1
                &&& final(self).stage == Stage::Fetching
                &&& final(self).next == final(self).bounds().0
            },
            r is Finished ==> final(self).stage == Stage::Done && (old(self).stage == Stage::Done
                || !waits_after(old(self).window as int, old(self).windows@.len() as int)),
    {
        match self.stage {
            Stage::Done => CrawlAction::Finished,
            Stage::Flushed => self.after_window(),
            Stage::Fetching => {
                let lo = self.windows[self.window].0;
                let hi = self.windows[self.window].1;
                if self.next < hi {
                    CrawlAction::FetchChapter(self.next)
                } else {
                    let recs = window_records(&self.tasks, lo, hi, &self.outcomes);
                    self.outcomes = Vec::new();
                    self.stage = Stage::Flushed;
                    if recs.len() > 0 {
                        CrawlAction::InsertBatch(recs)
                    } else {
                        self.after_window()
                    }
                }
            },
        }
    }
}

} // verus!
