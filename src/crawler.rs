use vstd::prelude::*;

use crate::error::BfError;
use crate::page_url::{parsed_view, url_domain, url_parses, PageUrl, PageUrlView};
use crate::worker::WorkerPolicy;

verus! {

/// What the crawl reads of a task.
pub struct TaskView {
    pub depth: nat,
    pub url: PageUrlView,
}

/// A link to crawl, with the number of links followed from the root to reach it.
#[derive(Debug)]
pub struct CrawlTask {
    pub depth: usize,
    pub url: PageUrl,
}

impl View for CrawlTask {
    type V = TaskView;

    open spec fn view(&self) -> TaskView {
        TaskView { depth: self.depth as nat, url: self.url@ }
    }
}

impl Clone for CrawlTask {
    fn clone(&self) -> (r: CrawlTask)
        ensures
            r@ == self@,
    {
        CrawlTask { depth: self.depth, url: self.url.clone() }
    }
}

/// What the coordinator decided about one discovered link.
#[derive(Debug, Clone, Copy, PartialEq, Eq, Structural)]
pub enum Verdict {
    /// Discarded: its host is not the crawl's domain.
    OffDomain,
    /// Discarded: its page was already approved.
    AlreadyVisited,
    /// Marked visited, but too deep to fetch.
    Recorded,
    /// Marked visited; send it to the workers, then pause.
    Dispatch,
}

/// The decision on a discovered link, given the crawl's domain, its depth
/// bound and the pages visited so far.
pub open spec fn verdict_of(
    domain: Seq<char>,
    max_depth: nat,
    visited: Set<Seq<char>>,
    t: TaskView,
) -> Verdict {
    if t.url.host != Some(domain) {
        Verdict::OffDomain
    } else if visited.contains(t.url.page) {
        Verdict::AlreadyVisited
    } else if t.depth < max_depth {
        Verdict::Dispatch
    } else {
        Verdict::Recorded
    }
}

/// The visited pages after a discovered link has been handled.
pub open spec fn visited_after(domain: Seq<char>, visited: Set<Seq<char>>, t: TaskView) -> Set<
    Seq<char>,
> {
    if t.url.host == Some(domain) {
        visited.insert(t.url.page)
    } else {
        visited
    }
}

/// The visited pages after the coordinator has handled the discovered links
/// `ts` in order, starting from the pages `v0`.
pub open spec fn run_visited(domain: Seq<char>, v0: Set<Seq<char>>, ts: Seq<TaskView>) -> Set<
    Seq<char>,
>
    decreases ts.len(),
{
    if ts.len() == 0 {
        v0
    } else {
        visited_after(domain, run_visited(domain, v0, ts.drop_last()), ts.last())
    }
}

/// The tasks that the coordinator dispatches, in order, while it handles the
/// discovered links `ts` starting from the pages `v0`.
pub open spec fn run_dispatched(
    domain: Seq<char>,
    max_depth: nat,
    v0: Set<Seq<char>>,
    ts: Seq<TaskView>,
) -> Seq<TaskView>
    decreases ts.len(),
{
    if ts.len() == 0 {
        Seq::empty()
    } else {
        let before = run_dispatched(domain, max_depth, v0, ts.drop_last());
        let seen = run_visited(domain, v0, ts.drop_last());
        if verdict_of(domain, max_depth, seen, ts.last()) == Verdict::Dispatch {
            before.push(ts.last())
        } else {
            before
        }
    }
}

/// The canonical pages of a sequence of tasks.
pub open spec fn pages_of(ts: Seq<TaskView>) -> Seq<Seq<char>> {
    ts.map_values(|t: TaskView| t.url.page)
}

proof fn lemma_run_facts(domain: Seq<char>, max_depth: nat, v0: Set<Seq<char>>, ts: Seq<TaskView>)
    ensures
        v0.subset_of(run_visited(domain, v0, ts)),
        forall|p: Seq<char>| #[trigger]
            run_visited(domain, v0, ts).contains(p) ==> v0.contains(p) || exists|i: int|
                0 <= i < ts.len() && ts[i].url.host == Some(domain) && #[trigger] ts[i].url.page
                    == p,
        forall|i: int|
            0 <= i < run_dispatched(domain, max_depth, v0, ts).len() ==> {
                let t = #[trigger] run_dispatched(domain, max_depth, v0, ts)[i];
                &&& run_visited(domain, v0, ts).contains(t.url.page)
                &&& !v0.contains(t.url.page)
                &&& t.url.host == Some(domain)
                &&& t.depth < max_depth
                &&& ts.contains(t)
            },
        pages_of(run_dispatched(domain, max_depth, v0, ts)).no_duplicates(),
    decreases ts.len(),
{
    if ts.len() > 0 {
        let prev = ts.drop_last();
        lemma_run_facts(domain, max_depth, v0, prev);
        let seen = run_visited(domain, v0, prev);
        let d0 = run_dispatched(domain, max_depth, v0, prev);
        let d = run_dispatched(domain, max_depth, v0, ts);
        let t = ts.last();
        assert forall|p: Seq<char>| #[trigger]
            run_visited(domain, v0, ts).contains(p) implies v0.contains(p) || exists|i: int|
                0 <= i < ts.len() && ts[i].url.host == Some(domain) && #[trigger] ts[i].url.page
                    == p by {
            if seen.contains(p) {
                if !v0.contains(p) {
                    let i = choose|i: int|
                        0 <= i < prev.len() && prev[i].url.host == Some(domain) && #[trigger] prev[i].url.page
                            == p;
                    assert(ts[i] == prev[i]);
                }
            } else {
                assert(ts[ts.len() - 1] == t);
            }
        }
        assert forall|i: int| 0 <= i < d.len() implies {
            let u = #[trigger] d[i];
            &&& run_visited(domain, v0, ts).contains(u.url.page)
            &&& !v0.contains(u.url.page)
            &&& u.url.host == Some(domain)
            &&& u.depth < max_depth
            &&& ts.contains(u)
        } by {
            if i < d0.len() {
                assert(d[i] == d0[i]);
                let j = choose|j: int| 0 <= j < prev.len() && prev[j] == d0[i];
                assert(ts[j] == prev[j]);
            } else {
                assert(ts[ts.len() - 1] == t);
            }
        }
        if verdict_of(domain, max_depth, seen, t) == Verdict::Dispatch {
            assert(pages_of(d) =~= pages_of(d0).push(t.url.page));
            assert forall|a: int, b: int|
                0 <= a < b < pages_of(d).len() implies pages_of(d)[a] != pages_of(d)[b] by {
                if b == d0.len() {
                    assert(pages_of(d)[a] == d0[a].url.page);
                    assert(seen.contains(d0[a].url.page));
                }
            }
        }
    }
}

/// No canonical page is dispatched twice in a run, nor one that was visited
/// before the run began.
pub proof fn lemma_dispatch_dedup(
    domain: Seq<char>,
    max_depth: nat,
    v0: Set<Seq<char>>,
    ts: Seq<TaskView>,
)
    ensures
        pages_of(run_dispatched(domain, max_depth, v0, ts)).no_duplicates(),
        forall|i: int|
            0 <= i < run_dispatched(domain, max_depth, v0, ts).len() ==> !v0.contains(
                #[trigger] run_dispatched(domain, max_depth, v0, ts)[i].url.page,
            ),
{
    lemma_run_facts(domain, max_depth, v0, ts);
}

/// Every task dispatched in a run has the crawl's domain as its host, and
/// every page visited in a run was visited before it or is the page of a
/// discovered link whose host is the crawl's domain.
pub proof fn lemma_domain_confined(
    domain: Seq<char>,
    max_depth: nat,
    v0: Set<Seq<char>>,
    ts: Seq<TaskView>,
)
    ensures
        forall|i: int|
            0 <= i < run_dispatched(domain, max_depth, v0, ts).len() ==> (#[trigger] run_dispatched(
                domain,
                max_depth,
                v0,
                ts,
            )[i]).url.host == Some(domain),
        forall|p: Seq<char>| #[trigger]
            run_visited(domain, v0, ts).contains(p) ==> v0.contains(p) || exists|i: int|
                0 <= i < ts.len() && ts[i].url.host == Some(domain) && #[trigger] ts[i].url.page
                    == p,
{
    lemma_run_facts(domain, max_depth, v0, ts);
}

/// No task at or beyond the depth bound is ever dispatched.
pub proof fn lemma_depth_bounded(
    domain: Seq<char>,
    max_depth: nat,
    v0: Set<Seq<char>>,
    ts: Seq<TaskView>,
)
    ensures
        forall|i: int|
            0 <= i < run_dispatched(domain, max_depth, v0, ts).len() ==> (#[trigger] run_dispatched(
                domain,
                max_depth,
                v0,
                ts,
            )[i]).depth < max_depth,
{
    lemma_run_facts(domain, max_depth, v0, ts);
}

/// A run dispatches at most one task per distinct canonical page among the
/// links it was handed: the work, and the politeness pauses after each
/// dispatch, are bounded by the number of distinct pages reachable.
pub proof fn lemma_dispatch_bounded(
    domain: Seq<char>,
    max_depth: nat,
    v0: Set<Seq<char>>,
    ts: Seq<TaskView>,
)
    ensures
        run_dispatched(domain, max_depth, v0, ts).len() <= pages_of(ts).to_set().len(),
{
    lemma_run_facts(domain, max_depth, v0, ts);
    let d = run_dispatched(domain, max_depth, v0, ts);
    let dp = pages_of(d);
    let all = pages_of(ts).to_set();
    dp.unique_seq_to_set();
    assert(dp.to_set().subset_of(all)) by {
        assert forall|p: Seq<char>| dp.to_set().contains(p) implies all.contains(p) by {
            let i = choose|i: int| 0 <= i < dp.len() && dp[i] == p;
            assert(d[i] == d[i]);
            let j = choose|j: int| 0 <= j < ts.len() && ts[j] == d[i];
            assert(pages_of(ts)[j] == p);
        }
    }
    vstd::set_lib::lemma_len_subset(dp.to_set(), all);
}

/// What the crawl reads of a crawler.
pub struct CrawlerView {
    pub domain: Seq<char>,
    pub root: PageUrlView,
    /// The canonical pages approved so far, in order of approval.
    pub visited: Seq<Seq<char>>,
    pub num_fetchers: nat,
    pub crawl_depth: nat,
    pub verbose_log: bool,
}

/// Single domain crawler: its configuration and the pages it has visited.
#[derive(Debug)]
pub struct Crawler {
    domain: String,
    domain_url: PageUrl,
    visited: Vec<String>,
    /// Number of fetching threads
    num_fetchers: usize,
    pub crawl_depth: usize,
    /// Log links as they are processed or not
    pub verbose_log: bool,
}

/// Whether `url`'s host is the domain name `domain`, exactly.
pub fn is_same_domain(domain: &String, url: &PageUrl) -> (r: bool)
    ensures
        r == (url@.host == Some(domain@)),
{
    match url.domain() {
        Some(d) => {
            let d = d.to_owned();
            d == *domain
        },
        None => false,
    }
}

impl View for Crawler {
    type V = CrawlerView;

    closed spec fn view(&self) -> CrawlerView {
        CrawlerView {
            domain: self.domain@,
            root: self.domain_url@,
            visited: self.visited@.map_values(|s: String| s@),
            num_fetchers: self.num_fetchers as nat,
            crawl_depth: self.crawl_depth as nat,
            verbose_log: self.verbose_log,
        }
    }
}

impl CrawlerView {
    /// The visited pages as a set.
    pub open spec fn visited_set(self) -> Set<Seq<char>> {
        self.visited.to_set()
    }

    /// Each page is visited once, the root lies in the domain, and at least
    /// one worker fetches.
    pub open spec fn wf(self) -> bool {
        &&& self.visited.no_duplicates()
        &&& self.root.host == Some(self.domain)
        &&& self.num_fetchers > 0
    }
}

/// What the coordinator observed besides a discovered link.
#[derive(Debug, Clone, Copy, PartialEq, Eq, Structural)]
pub enum Signal {
    /// No discovery was waiting; after the grace interval this many messages
    /// sit in the discovery queue and in the dispatch queue.
    Idle { discoveries_pending: usize, dispatches_pending: usize },
    /// A dispatch could not be sent: the workers are gone.
    DispatchFailed,
}

/// Whether the coordinator sets the shutdown flag and stops: when every queue
/// is found empty after the grace interval, or when a dispatch fails.
pub fn should_shut_down(signal: Signal) -> (stop: bool)
    ensures
        stop == match signal {
            Signal::Idle { discoveries_pending, dispatches_pending } => discoveries_pending == 0
                && dispatches_pending == 0,
            Signal::DispatchFailed => true,
        },
{
    match signal {
        Signal::Idle { discoveries_pending, dispatches_pending } => discoveries_pending == 0
            && dispatches_pending == 0,
        Signal::DispatchFailed => true,
    }
}

/// Whether `pages` holds `page`.
fn holds_page(pages: &Vec<String>, page: &String) -> (r: bool)
    ensures
        r == pages@.map_values(|s: String| s@).contains(page@),
{
    let ghost views = pages@.map_values(|s: String| s@);
    let mut i: usize = 0;
    while i < pages.len()
        invariant
            i <= pages@.len(),
            views == pages@.map_values(|s: String| s@),
            forall|j: int| 0 <= j < i ==> views[j] != page@,
        decreases pages@.len() - i,
    {
        if pages[i] == *page {
            assert(views[i as int] == page@);
            return true;
        }
        i = i + 1;
    }
    proof {
        assert forall|k: int| 0 <= k < views.len() implies views[k] != page@ by {}
    }
    false
}

impl Crawler {
    /// Builds a crawler for the domain of the root URL `domain`, with two
    /// fetchers, a depth bound of two, verbose logging and nothing visited.
    pub fn new(domain: &str) -> (r: Result<Crawler, BfError>)
        ensures
            match r {
                Ok(c) => {
                    &&& url_parses(domain@)
                    &&& url_domain(domain@) == Some(c@.domain)
                    &&& c@.root == parsed_view(domain@)
                    &&& c@.visited == Seq::<Seq<char>>::empty()
                    &&& c@.num_fetchers == 2
                    &&& c@.crawl_depth == 2
                    &&& c@.verbose_log
                    &&& c@.wf()
                },
                Err(BfError::UrlError(_)) => !url_parses(domain@),
                Err(BfError::NoDomain) => url_parses(domain@) && url_domain(domain@) is None,
            },
    {
        let url = match PageUrl::parse(domain) {
            Ok(u) => u,
            Err(e) => {
                return Err(BfError::UrlError(e));
            },
        };
        let d = match url.domain() {
            Some(d) => d.to_owned(),
            None => {
                return Err(BfError::NoDomain);
            },
        };
        let c = Crawler {
            domain: d,
            domain_url: url,
            visited: Vec::new(),
            num_fetchers: 2,
            crawl_depth: 2,
            verbose_log: true,
        };
        proof {
            assert(c@.visited =~= Seq::<Seq<char>>::empty());
        }
        Ok(c)
    }

    /// Decides on a link that a worker discovered (or the root): a link off
    /// the domain, or to a page already visited, is discarded; any other is
    /// marked visited, and dispatched if it is shallower than the depth bound.
    pub fn on_discovered(&mut self, task: &CrawlTask) -> (r: Verdict)
        requires
            old(self)@.wf(),
        ensures
            final(self)@.wf(),
            r == verdict_of(
                old(self)@.domain,
                old(self)@.crawl_depth,
                old(self)@.visited_set(),
                task@,
            ),
            final(self)@.visited_set() == visited_after(
                old(self)@.domain,
                old(self)@.visited_set(),
                task@,
            ),
            final(self)@.visited == (if r == Verdict::Dispatch || r == Verdict::Recorded {
                old(self)@.visited.push(task@.url.page)
            } else {
                old(self)@.visited
            }),
            final(self)@.domain == old(self)@.domain,
            final(self)@.root == old(self)@.root,
            final(self)@.num_fetchers == old(self)@.num_fetchers,
            final(self)@.crawl_depth == old(self)@.crawl_depth,
            final(self)@.verbose_log == old(self)@.verbose_log,
    {
        if !is_same_domain(&self.domain, &task.url) {
            return Verdict::OffDomain;
        }
        let page = task.url.page().to_owned();
        if holds_page(&self.visited, &page) {
            proof {
                assert(old(self)@.visited_set().insert(task@.url.page) =~= old(self)@.visited_set());
            }
            return Verdict::AlreadyVisited;
        }
        self.visited.push(page);
        proof {
            let old_v = old(self)@.visited;
            assert(self@.visited =~= old_v.push(task@.url.page));
            old_v.lemma_push_to_set_commute(task@.url.page);
            assert(self@.visited.no_duplicates()) by {
                assert forall|a: int, b: int|
                    0 <= a < b < self@.visited.len() implies self@.visited[a]
                    != self@.visited[b] by {
                    if b == old_v.len() {
                        assert(old_v.contains(old_v[a]));
                    }
                }
            }
        }
        if task.depth < self.crawl_depth {
            Verdict::Dispatch
        } else {
            Verdict::Recorded
        }
    }
    /// The root URL as the first task, at depth zero.
    pub fn root_task(&self) -> (r: CrawlTask)
        ensures
            r@ == (TaskView { depth: 0, url: self@.root }),
    {
        CrawlTask { depth: 0, url: self.domain_url.clone() }
    }

    /// The policy that the workers follow: this crawl's domain and depth bound.
    pub fn worker_policy(&self) -> (r: WorkerPolicy)
        ensures
            r@.domain == self@.domain,
            r@.max_depth == self@.crawl_depth,
    {
        WorkerPolicy::new(self.domain.clone(), self.crawl_depth)
    }

    /// The canonical pages visited, in order of approval.
    pub fn visited(&self) -> (r: &Vec<String>)
        ensures
            r@.map_values(|s: String| s@) == self@.visited,
    {
        &self.visited
    }

    /// The domain name that the crawl is confined to.
    pub fn domain(&self) -> (r: &str)
        ensures
            r@ == self@.domain,
    {
        self.domain.as_str()
    }

    /// The number of fetching threads.
    pub fn num_fetchers(&self) -> (r: usize)
        ensures
            r == self@.num_fetchers,
    {
        self.num_fetchers
    }

    /// Sets the number of fetching threads.
    pub fn set_num_fetchers(&mut self, n: usize)
        requires
            n > 0,
        ensures
            final(self)@ == (CrawlerView { num_fetchers: n as nat, ..old(self)@ }),
    {
        self.num_fetchers = n;
    }
}

} // verus!
