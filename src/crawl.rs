use vstd::prelude::*;
use vstd::string::StringExecFns;
use crate::models::{
    ChapterTask, CrawlError, NewChapter, ParsedChapter, ParsedModel, RecordModel, TaskModel,
};
use crate::mtc::MTCCrawlStrategy;
use crate::text::{has_prefix, starts_with};
use crate::tf::TFCrawlStrategy;

verus! {

/// Chapters fetched and written per window.
pub const DEFAULT_BATCH_SIZE: usize = 400;

/// Seconds waited between two windows.
pub const DEFAULT_BATCH_DELAY_SECS: u64 = 300;

/// The browser identification sent with every request.
pub const DEFAULT_USER_AGENT: &'static str = "Mozilla/5.0 (Windows NT 10.0; Win64; x64) AppleWebKit/537.36 (KHTML, like Gecko) Chrome/120.0.0.0 Safari/537.36";

/// One of the site-specific strategies.
pub enum SiteStrategy {
    Tf(TFCrawlStrategy),
    Mtc(MTCCrawlStrategy),
}

impl SiteStrategy {
    /// The root URL of the strategy's site.
    pub open spec fn base(&self) -> Seq<char> {
        match self {
            SiteStrategy::Tf(s) => s.base_url@,
            SiteStrategy::Mtc(s) => s.base_url@,
        }
    }

    /// The strategy takes `url`: it starts with the site's root.
    pub open spec fn accepts(&self, url: Seq<char>) -> bool {
        has_prefix(url, self.base())
    }

    pub open spec fn wf(&self) -> bool {
        match self {
            SiteStrategy::Tf(_) => true,
            SiteStrategy::Mtc(s) => s.wf(),
        }
    }

    /// Whether the strategy takes `url`.
    pub fn supports(&self, url: &str) -> (r: bool)
        ensures
            r == self.accepts(url@),
    {
        match self {
            SiteStrategy::Tf(s) => starts_with(url, s.base_url.as_str()),
            SiteStrategy::Mtc(s) => starts_with(url, s.base_url.as_str()),
        }
    }
}

/// `i` is the first strategy of `strategies` that takes `url`.
pub open spec fn resolves_to(strategies: Seq<SiteStrategy>, url: Seq<char>, i: int) -> bool {
    &&& 0 <= i < strategies.len()
    &&& strategies[i].accepts(url)
    &&& forall|j: int| 0 <= j < i ==> !(#[trigger] strategies[j]).accepts(url)
}

/// The crawl core: the registered strategies, in order, and the pacing of
/// the batches.
pub struct CrawlService {
    pub strategies: Vec<SiteStrategy>,
    pub batch_size: usize,
    pub batch_delay_secs: u64,
    pub user_agent: String,
}

impl CrawlService {
    pub open spec fn wf(&self) -> bool {
        &&& self.batch_size > 0
        &&& forall|i: int| 0 <= i < self.strategies@.len() ==> (#[trigger] self.strategies@[i]).wf()
    }

    /// The plain-HTML strategy, then the encrypted one, with the default pacing.
    pub fn new() -> (r: CrawlService)
        ensures
            r.wf(),
            r.strategies@.len() == 2,
            r.strategies@[0] is Tf,
            r.strategies@[1] is Mtc,
            r.strategies@[0].base() == "https://truyenfull.vision"@,
            r.strategies@[1].base() == "https://metruyencv.com"@,
            r.batch_size == DEFAULT_BATCH_SIZE,
            r.batch_delay_secs == DEFAULT_BATCH_DELAY_SECS,
            r.user_agent@ == DEFAULT_USER_AGENT@,
    {
        let mut strategies: Vec<SiteStrategy> = Vec::new();
        strategies.push(SiteStrategy::Tf(TFCrawlStrategy::new()));
        strategies.push(SiteStrategy::Mtc(MTCCrawlStrategy::new()));
        CrawlService {
            strategies,
            batch_size: DEFAULT_BATCH_SIZE,
            batch_delay_secs: DEFAULT_BATCH_DELAY_SECS,
            user_agent: String::from_str(DEFAULT_USER_AGENT),
        }
    }

    /// The same strategies with another window size and delay.
    pub fn with_pacing(self, batch_size: usize, batch_delay_secs: u64) -> (r: CrawlService)
        requires
            self.wf(),
            batch_size > 0,
        ensures
            r.wf(),
            r.strategies@ == self.strategies@,
            r.batch_size == batch_size,
            r.batch_delay_secs == batch_delay_secs,
            r.user_agent@ == self.user_agent@,
    {
        CrawlService { strategies: self.strategies, batch_size, batch_delay_secs, user_agent: self.user_agent }
    }

    /// The index of the first registered strategy that takes `url`;
    /// `NoStrategyFound` where none does.
    pub fn resolve(&self, url: &str) -> (r: Result<usize, CrawlError>)
        ensures
            match r {
                Ok(i) => resolves_to(self.strategies@, url@, i as int),
                Err(e) => e is NoStrategyFound && forall|j: int|
                    0 <= j < self.strategies@.len() ==> !(#[trigger] self.strategies@[j]).accepts(url@),
            },
    {
        let mut i: usize = 0;
        while i < self.strategies.len()
            invariant
                i <= self.strategies@.len(),
                forall|j: int| 0 <= j < i ==> !(#[trigger] self.strategies@[j]).accepts(url@),
            decreases self.strategies@.len() - i,
        {
            if self.strategies[i].supports(url) {
                return Ok(i);
            }
            i = i + 1;
        }
        Err(CrawlError::NoStrategyFound)
    }
}

/// The models of a list of tasks.
pub open spec fn task_models(ts: Seq<ChapterTask>) -> Seq<TaskModel> {
    ts.map_values(|t: ChapterTask| t.model())
}

/// The models of a list of new chapters.
pub open spec fn record_models(rs: Seq<NewChapter>) -> Seq<RecordModel> {
    rs.map_values(|r: NewChapter| r.model())
}

/// The models of a window's outcomes.
pub open spec fn outcome_models(os: Seq<Option<ParsedChapter>>) -> Seq<Option<ParsedModel>> {
    os.map_values(|o: Option<ParsedChapter>| match o {
        Some(p) => Some(p.model()),
        None => None,
    })
}

/// The tasks whose key is not among `existing`, in order.
pub open spec fn pending(ts: Seq<TaskModel>, existing: Seq<i32>) -> Seq<TaskModel>
    decreases ts.len(),
{
    if ts.len() == 0 {
        Seq::empty()
    } else if existing.contains(ts.last().1) {
        pending(ts.drop_last(), existing)
    } else {
        pending(ts.drop_last(), existing).push(ts.last())
    }
}

/// The tasks of `tasks` that are not stored yet: those whose key is not among
/// the keys `existing` already stored for the story.
pub fn pending_tasks(tasks: &Vec<ChapterTask>, existing: &Vec<i32>) -> (r: Vec<ChapterTask>)
    ensures
        task_models(r@) == pending(task_models(tasks@), existing@),
{
    let mut out: Vec<ChapterTask> = Vec::new();
    let mut i: usize = 0;
    assert(task_models(tasks@).take(0) =~= Seq::<TaskModel>::empty());
    assert(task_models(out@) =~= Seq::<TaskModel>::empty());
    while i < tasks.len()
        invariant
            i <= tasks@.len(),
            task_models(out@) == pending(task_models(tasks@).take(i as int), existing@),
        decreases tasks@.len() - i,
    {
        let ghost ms = task_models(tasks@);
        assert(ms.take(i + 1).drop_last() =~= ms.take(i as int));
        assert(ms.take(i + 1).last() == tasks@[i as int].model());
        let key = tasks[i].index;
        let mut stored = false;
        let mut j: usize = 0;
        while j < existing.len()
            invariant
                j <= existing@.len(),
                stored == (exists|k: int| 0 <= k < j && existing@[k] == key),
            decreases existing@.len() - j,
        {
            if existing[j] == key {
                stored = true;
            }
            j = j + 1;
        }
        if stored {
            proof {
                let k = choose|k: int| 0 <= k < existing@.len() && existing@[k] == key;
                assert(existing@.contains(key));
            }
        } else {
            let t = tasks[i].duplicate();
            let ghost before = out@;
            out.push(t);
            assert(task_models(out@) =~= task_models(before).push(t.model()));
        }
        i = i + 1;
    }
    assert(task_models(tasks@).take(tasks@.len() as int) =~= task_models(tasks@));
    out
}

/// How many windows of `size` tasks `n` tasks fill: the ceiling of `n / size`.
pub open spec fn window_count(n: int, size: int) -> int {
    (n + size - 1) / size
}

/// The bounds of window `j`: it starts at `j * size` and holds up to `size`
/// tasks.
pub open spec fn window_bounds_at(j: int, n: int, size: int) -> (int, int) {
    (j * size, if j * size + size <= n { j * size + size } else { n })
}

/// Splits `n` tasks into consecutive windows of `size`, the last one
/// possibly shorter: the start and end of each.
pub fn window_bounds(n: usize, size: usize) -> (r: Vec<(usize, usize)>)
    requires
        size > 0,
    ensures
        r@.len() == window_count(n as int, size as int),
        forall|j: int| 0 <= j < r@.len() ==> ((#[trigger] r@[j]).0 as int, r@[j].1 as int) == window_bounds_at(j, n as int, size as int),
{
    let mut out: Vec<(usize, usize)> = Vec::new();
    let mut lo: usize = 0;
    assert(0 * (size as int) == 0) by (nonlinear_arith);
    while lo < n
        invariant
            size > 0,
            lo <= n,
            lo < n ==> lo as int == out@.len() * size,
            lo == n ==> (out@.len() - 1) * size < n && n <= out@.len() * size,
            n == 0 ==> out@.len() == 0,
            forall|j: int| 0 <= j < out@.len() ==> ((#[trigger] out@[j]).0 as int, out@[j].1 as int) == window_bounds_at(j, n as int, size as int),
        decreases n - lo,
    {
        let hi: usize = if n - lo > size { lo + size } else { n };
        let ghost j = out@.len() as int;
        assert(window_bounds_at(j, n as int, size as int) == (lo as int, hi as int));
        out.push((lo, hi));
        proof {
            if hi < n {
                assert(hi as int == (j + 1) * size) by (nonlinear_arith)
                    requires hi as int == lo as int + size, lo as int == j * size;
            } else {
                assert((out@.len() - 1) * size < n && n <= out@.len() * size) by (nonlinear_arith)
                    requires out@.len() == j + 1, lo as int == j * size, lo < n, n <= lo + size, size > 0;
            }
        }
        lo = hi;
    }
    proof {
        if n > 0 {
            lemma_ceil(n as int, size as int, out@.len() as int);
        } else {
            assert(window_count(0, size as int) == 0) by (nonlinear_arith)
                requires size > 0;
        }
    }
    out
}

/// A count `w` with `(w - 1) * size < n <= w * size` is the ceiling of `n / size`.
pub proof fn lemma_ceil(n: int, size: int, w: int)
    requires
        size > 0,
        n > 0,
        (w - 1) * size < n,
        n <= w * size,
    ensures
        w == window_count(n, size),
{
    let q = (n + size - 1) / size;
    let r = (n + size - 1) % size;
    assert(n + size - 1 == q * size + r && 0 <= r < size) by {
        vstd::arithmetic::div_mod::lemma_fundamental_div_mod(n + size - 1, size);
    }
    assert(w == q) by (nonlinear_arith)
        requires
            size > 0,
            (w - 1) * size < n,
            n <= w * size,
            n + size - 1 == q * size + r,
            0 <= r < size,
    ;
}

/// Whether the scheduler waits after window `j` of `count`: after every
/// window but the last.
pub open spec fn waits_after(j: int, count: int) -> bool {
    j + 1 < count
}

/// Whether to wait before the window after `window`, of `count` windows.
pub fn delay_after(window: usize, count: usize) -> (r: bool)
    ensures
        r == waits_after(window as int, count as int),
{
    window < count && count - window > 1
}

/// The record that a fetched chapter gives: the parsed title where there is
/// one, else the task's name; the task's key; the parsed content.
pub open spec fn record_of(t: TaskModel, p: ParsedModel) -> RecordModel {
    (
        match p.1 {
            Some(title) => title,
            None => t.0,
        },
        t.1,
        p.0,
    )
}

/// The records of the tasks whose fetch succeeded, in order; `outcomes[i]`
/// is the result for `tasks[i]`.
pub open spec fn successes(tasks: Seq<TaskModel>, outcomes: Seq<Option<ParsedModel>>) -> Seq<RecordModel>
    decreases tasks.len(),
{
    if tasks.len() == 0 {
        Seq::empty()
    } else {
        let front = successes(tasks.drop_last(), outcomes);
        match outcomes[tasks.len() - 1] {
            Some(p) => front.push(record_of(tasks.last(), p)),
            None => front,
        }
    }
}

/// The records that one window writes: for each of its tasks, in order,
/// whose fetch succeeded. `outcomes[i]` is the result for task `lo + i`; a
/// failed fetch is left out and nothing else of the window is lost.
pub fn window_records(tasks: &Vec<ChapterTask>, lo: usize, hi: usize, outcomes: &Vec<Option<ParsedChapter>>) -> (r: Vec<NewChapter>)
    requires
        lo <= hi <= tasks@.len(),
        outcomes@.len() == hi - lo,
    ensures
        record_models(r@) == successes(task_models(tasks@).subrange(lo as int, hi as int), outcome_models(outcomes@)),
{
    let ghost ts = task_models(tasks@).subrange(lo as int, hi as int);
    let ghost os = outcome_models(outcomes@);
    let mut out: Vec<NewChapter> = Vec::new();
    let mut i: usize = 0;
    assert(ts.take(0) =~= Seq::<TaskModel>::empty());
    assert(record_models(out@) =~= Seq::<RecordModel>::empty());
    while i < hi - lo
        invariant
            lo <= hi <= tasks@.len(),
            outcomes@.len() == hi - lo,
            ts == task_models(tasks@).subrange(lo as int, hi as int),
            os == outcome_models(outcomes@),
            i <= hi - lo,
            record_models(out@) == successes(ts.take(i as int), os),
        decreases hi - lo - i,
    {
        assert(ts.take(i + 1).drop_last() =~= ts.take(i as int));
        assert(ts.take(i + 1).last() == tasks@[lo + i].model());
        let task = &tasks[lo + i];
        match &outcomes[i] {
            Some(p) => {
                let title = match &p.title {
                    Some(t) => t.clone(),
                    None => task.name.clone(),
                };
                let rec = NewChapter { title, key: task.index, content: p.content.clone() };
                let ghost before = out@;
                out.push(rec);
                assert(record_models(out@) =~= record_models(before).push(rec.model()));
            },
            None => {},
        }
        i = i + 1;
    }
    assert(ts.take((hi - lo) as int) =~= ts);
    out
}

} // verus!
