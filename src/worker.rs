use vstd::prelude::*;
use vstd::string::StrSliceExecFns;

use crate::crawler::{CrawlTask, TaskView};
use crate::page_url::{PageUrl, PageUrlView};

verus! {

/// The content-type prefix that marks a page worth parsing for links.
pub open spec fn html_prefix() -> Seq<char> {
    seq!['t', 'e', 'x', 't', '/', 'h', 't', 'm', 'l']
}

/// Whether a declared content type marks an HTML page.
pub open spec fn is_html_type(content_type: Seq<char>) -> bool {
    content_type.len() >= html_prefix().len() && content_type.subrange(
        0,
        html_prefix().len() as int,
    ) == html_prefix()
}

/// Whether a probe's declared content type, if any, marks an HTML page.
pub open spec fn probe_wants_body(content_type: Option<Seq<char>>) -> bool {
    match content_type {
        Some(ct) => is_html_type(ct),
        None => false,
    }
}

/// Whether `content_type` begins with `text/html`.
pub fn is_html(content_type: &str) -> (r: bool)
    ensures
        r == is_html_type(content_type@),
{
    let prefix = "text/html";
    proof {
        reveal_strlit("text/html");
        assert(prefix@ =~= html_prefix());
    }
    let n = content_type.unicode_len();
    if n < 9 {
        return false;
    }
    let mut i: usize = 0;
    while i < 9
        invariant
            i <= 9,
            n == content_type@.len(),
            n >= 9,
            prefix@ == html_prefix(),
            forall|j: int| 0 <= j < i ==> content_type@[j] == html_prefix()[j],
        decreases 9 - i,
    {
        if content_type.get_char(i) != prefix.get_char(i) {
            proof {
                assert(content_type@.subrange(0, 9)[i as int] != html_prefix()[i as int]);
            }
            return false;
        }
        i = i + 1;
    }
    proof {
        assert(content_type@.subrange(0, 9) =~= html_prefix());
    }
    true
}

/// The tasks that a page's links give rise to: those whose host is the
/// crawl's domain, in the page's order, each at depth `depth`.
pub open spec fn derived_tasks(domain: Seq<char>, depth: nat, links: Seq<PageUrlView>) -> Seq<
    TaskView,
> {
    links.filter_map(
        |u: PageUrlView|
            if u.host == Some(domain) {
                Some(TaskView { depth, url: u })
            } else {
                None
            },
    )
}

/// What the worker pool reads of its policy.
pub struct WorkerPolicyView {
    pub domain: Seq<char>,
    pub max_depth: nat,
}

/// The rules that each worker follows: the crawl's domain and its depth bound.
#[derive(Debug, Clone)]
pub struct WorkerPolicy {
    domain: String,
    max_depth: usize,
}

impl View for WorkerPolicy {
    type V = WorkerPolicyView;

    closed spec fn view(&self) -> WorkerPolicyView {
        WorkerPolicyView { domain: self.domain@, max_depth: self.max_depth as nat }
    }
}

/// Whether a worker takes up a task it has received.
#[derive(Debug, Clone, Copy, PartialEq, Eq, Structural)]
pub enum Admission {
    /// The crawl is shutting down: leave the loop.
    Exit,
    /// At or beyond the depth bound: the task is not fetched.
    Skip,
    /// Probe the URL's metadata.
    Probe,
}

/// How far a worker got with a task.
#[derive(Debug)]
pub enum Stage {
    /// The probe answered, with this declared content type if it gave one.
    Probed(Option<String>),
    /// The probe failed in transport.
    ProbeFailed,
    /// The body was fetched, and these links were extracted from it.
    Fetched(Vec<PageUrl>),
    /// Fetching or decoding the body failed.
    FetchFailed,
}

/// What a worker does next with a task.
#[derive(Debug)]
pub enum Next {
    /// Fetch the full body.
    Fetch,
    /// Send these discoveries to the coordinator; the task is done.
    Report(Vec<CrawlTask>),
    /// Drop the task; nothing is reported.
    Drop,
}

pub open spec fn opt_view(o: Option<String>) -> Option<Seq<char>> {
    match o {
        Some(s) => Some(s@),
        None => None,
    }
}

pub open spec fn urls_view(v: Seq<PageUrl>) -> Seq<PageUrlView> {
    v.map_values(|u: PageUrl| u@)
}

pub open spec fn tasks_view(v: Seq<CrawlTask>) -> Seq<TaskView> {
    v.map_values(|t: CrawlTask| t@)
}

impl WorkerPolicy {
    /// A policy for the domain `domain` and the depth bound `max_depth`.
    pub fn new(domain: String, max_depth: usize) -> (r: WorkerPolicy)
        ensures
            r@.domain == domain@,
            r@.max_depth == max_depth,
    {
        WorkerPolicy { domain, max_depth }
    }

    /// Decides whether to take up a received task: never once the crawl is
    /// shutting down, and never for a task at or beyond the depth bound.
    pub fn take_up(&self, shutdown: bool, task: &CrawlTask) -> (r: Admission)
        ensures
            r == (if shutdown {
                Admission::Exit
            } else if task.depth >= self@.max_depth {
                Admission::Skip
            } else {
                Admission::Probe
            }),
    {
        if shutdown {
            Admission::Exit
        } else if task.depth >= self.max_depth {
            Admission::Skip
        } else {
            Admission::Probe
        }
    }

    /// Decides the next move on an admitted task: fetch the body only after a
    /// probe that declares HTML; drop the task on any transport failure or
    /// other content; report the extracted links on the crawl's domain, one
    /// level deeper.
    pub fn advance(&self, task: &CrawlTask, stage: Stage) -> (r: Next)
        requires
            task.depth < usize::MAX,
        ensures
            match stage {
                Stage::Probed(ct) => if probe_wants_body(opt_view(ct)) {
                    r is Fetch
                } else {
                    r is Drop
                },
                Stage::ProbeFailed => r is Drop,
                Stage::Fetched(links) => r matches Next::Report(ts) && tasks_view(ts@)
                    == derived_tasks(self@.domain, (task.depth + 1) as nat, urls_view(links@)),
                Stage::FetchFailed => r is Drop,
            },
    {
        match stage {
            Stage::Probed(ct) => {
                let wants = match &ct {
                    Some(c) => is_html(c.as_str()),
                    None => false,
                };
                if wants {
                    Next::Fetch
                } else {
                    Next::Drop
                }
            },
            Stage::ProbeFailed => Next::Drop,
            Stage::Fetched(links) => Next::Report(self.discoveries(task.depth + 1, &links)),
            Stage::FetchFailed => Next::Drop,
        }
    }

    /// The links on the crawl's domain, in order, as tasks at depth `depth`.
    fn discoveries(&self, depth: usize, links: &Vec<PageUrl>) -> (r: Vec<CrawlTask>)
        ensures
            tasks_view(r@) == derived_tasks(self@.domain, depth as nat, urls_view(links@)),
    {
        let ghost f = |u: PageUrlView|
            if u.host == Some(self@.domain) {
                Some(TaskView { depth: depth as nat, url: u })
            } else {
                None
            };
        let mut out: Vec<CrawlTask> = Vec::new();
        let mut i: usize = 0;
        while i < links.len()
            invariant
                i <= links@.len(),
                tasks_view(out@) == urls_view(links@).subrange(0, i as int).filter_map(f),
                f == (|u: PageUrlView|
                    if u.host == Some(self@.domain) {
                        Some(TaskView { depth: depth as nat, url: u })
                    } else {
                        None
                    }),
            decreases links@.len() - i,
        {
            let ghost before = out@;
            let ghost all = urls_view(links@);
            proof {
                assert(all.subrange(0, i + 1).drop_last() =~= all.subrange(0, i as int));
            }
            if crate::crawler::is_same_domain(&self.domain, &links[i]) {
                out.push(CrawlTask { depth, url: links[i].clone() });
                proof {
                    assert(tasks_view(out@) =~= tasks_view(before) + seq![
                        TaskView { depth: depth as nat, url: all[i as int] },
                    ]);
                }
            } else {
                proof {
                    assert(tasks_view(out@) =~= tasks_view(before));
                }
            }
            i = i + 1;
        }
        proof {
            assert(urls_view(links@).subrange(0, links@.len() as int) =~= urls_view(links@));
        }
        out
    }
}

} // verus!
