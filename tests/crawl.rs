use std::collections::{HashMap, HashSet, VecDeque};

use crawler::worker::is_html;
use crawler::{
    should_shut_down, Admission, BfError, CrawlTask, Crawler, Next, PageUrl, Signal, Stage,
    Verdict,
};

fn url(s: &str) -> PageUrl {
    PageUrl::parse(s).unwrap()
}

fn task(depth: usize, s: &str) -> CrawlTask {
    CrawlTask { depth, url: url(s) }
}

#[test]
fn parse_keeps_serialization_and_strips_fragment() {
    let u = url("http://x.test/a#foo");
    assert_eq!(u.as_str(), "http://x.test/a#foo");
    assert_eq!(u.page(), "http://x.test/a");
    assert_eq!(u.domain(), Some("x.test"));
}

#[test]
fn parse_normalizes_input() {
    let u = url("HTTP://X.TEST");
    assert_eq!(u.as_str(), "http://x.test/");
    assert_eq!(u.page(), "http://x.test/");
    assert_eq!(u.domain(), Some("x.test"));
}

#[test]
fn parse_rejects_malformed() {
    assert!(PageUrl::parse("not a url").is_err());
    assert!(PageUrl::parse("").is_err());
}

#[test]
fn parse_ip_host_has_no_domain() {
    let u = url("http://127.0.0.1/x");
    assert_eq!(u.domain(), None);
}

#[test]
fn new_sets_defaults() {
    let c = Crawler::new("https://ex.test/").unwrap();
    assert_eq!(c.domain(), "ex.test");
    assert_eq!(c.num_fetchers(), 2);
    assert_eq!(c.crawl_depth, 2);
    assert!(c.verbose_log);
    assert!(c.visited().is_empty());
    let root = c.root_task();
    assert_eq!(root.depth, 0);
    assert_eq!(root.url.as_str(), "https://ex.test/");
}

#[test]
fn new_rejects_malformed_root() {
    assert!(matches!(Crawler::new("::nonsense"), Err(BfError::UrlError(_))));
}

#[test]
fn new_rejects_root_without_domain() {
    assert!(matches!(Crawler::new("http://127.0.0.1/"), Err(BfError::NoDomain)));
    assert!(matches!(Crawler::new("mailto:someone@ex.test"), Err(BfError::NoDomain)));
}

#[test]
fn set_num_fetchers_changes_only_count() {
    let mut c = Crawler::new("https://ex.test/").unwrap();
    c.set_num_fetchers(5);
    assert_eq!(c.num_fetchers(), 5);
    assert_eq!(c.domain(), "ex.test");
}

#[test]
fn fragments_count_as_one_page() {
    let mut c = Crawler::new("http://x.test/").unwrap();
    assert_eq!(c.on_discovered(&task(1, "http://x.test/a#foo")), Verdict::Dispatch);
    assert_eq!(c.on_discovered(&task(1, "http://x.test/a#bar")), Verdict::AlreadyVisited);
    assert_eq!(c.on_discovered(&task(1, "http://x.test/a")), Verdict::AlreadyVisited);
    assert_eq!(c.visited(), &vec!["http://x.test/a".to_string()]);
}

#[test]
fn subdomain_is_off_domain() {
    let mut c = Crawler::new("https://ex.test/").unwrap();
    assert_eq!(c.on_discovered(&task(0, "https://www.ex.test/")), Verdict::OffDomain);
    assert_eq!(c.on_discovered(&task(0, "https://other.test/b")), Verdict::OffDomain);
    assert!(c.visited().is_empty());
}

#[test]
fn repeated_discovery_dispatched_once() {
    let mut c = Crawler::new("https://ex.test/").unwrap();
    let mut dispatched = 0;
    for _ in 0..5 {
        if c.on_discovered(&task(1, "https://ex.test/a")) == Verdict::Dispatch {
            dispatched += 1;
        }
    }
    assert_eq!(dispatched, 1);
    assert_eq!(c.visited().len(), 1);
}

#[test]
fn too_deep_is_recorded_not_dispatched() {
    let mut c = Crawler::new("https://ex.test/").unwrap();
    assert_eq!(c.on_discovered(&task(2, "https://ex.test/c")), Verdict::Recorded);
    assert_eq!(c.on_discovered(&task(1, "https://ex.test/c")), Verdict::AlreadyVisited);
    c.crawl_depth = 0;
    assert_eq!(c.on_discovered(&task(0, "https://ex.test/")), Verdict::Recorded);
    assert_eq!(c.visited().len(), 2);
}

#[test]
fn shutdown_only_when_all_queues_empty_or_dispatch_fails() {
    assert!(should_shut_down(Signal::Idle { discoveries_pending: 0, dispatches_pending: 0 }));
    assert!(!should_shut_down(Signal::Idle { discoveries_pending: 1, dispatches_pending: 0 }));
    assert!(!should_shut_down(Signal::Idle { discoveries_pending: 0, dispatches_pending: 3 }));
    assert!(should_shut_down(Signal::DispatchFailed));
}

#[test]
fn worker_take_up_rules() {
    let c = Crawler::new("https://ex.test/").unwrap();
    let p = c.worker_policy();
    assert_eq!(p.take_up(true, &task(0, "https://ex.test/")), Admission::Exit);
    assert_eq!(p.take_up(false, &task(2, "https://ex.test/")), Admission::Skip);
    assert_eq!(p.take_up(false, &task(5, "https://ex.test/")), Admission::Skip);
    assert_eq!(p.take_up(false, &task(1, "https://ex.test/")), Admission::Probe);
}

#[test]
fn html_content_types() {
    assert!(is_html("text/html"));
    assert!(is_html("text/html; charset=utf-8"));
    assert!(!is_html("text/htm"));
    assert!(!is_html("TEXT/HTML"));
    assert!(!is_html("image/png"));
    assert!(!is_html(""));
}

#[test]
fn png_probe_never_fetches() {
    let c = Crawler::new("https://ex.test/").unwrap();
    let p = c.worker_policy();
    let t = task(0, "https://ex.test/logo.png");
    assert!(matches!(p.advance(&t, Stage::Probed(Some("image/png".to_string()))), Next::Drop));
    assert!(matches!(p.advance(&t, Stage::Probed(None)), Next::Drop));
    assert!(matches!(
        p.advance(&t, Stage::Probed(Some("text/html; charset=utf-8".to_string()))),
        Next::Fetch
    ));
}

#[test]
fn transport_failures_drop_the_task() {
    let c = Crawler::new("https://ex.test/").unwrap();
    let p = c.worker_policy();
    let t = task(0, "https://ex.test/");
    assert!(matches!(p.advance(&t, Stage::ProbeFailed), Next::Drop));
    assert!(matches!(p.advance(&t, Stage::FetchFailed), Next::Drop));
}

#[test]
fn fetched_links_filtered_and_deepened() {
    let c = Crawler::new("https://ex.test/").unwrap();
    let p = c.worker_policy();
    let t = task(1, "https://ex.test/a");
    let links = vec![
        url("https://ex.test/c"),
        url("https://other.test/b"),
        url("https://www.ex.test/d"),
        url("https://ex.test/#top"),
    ];
    match p.advance(&t, Stage::Fetched(links)) {
        Next::Report(ts) => {
            let got: Vec<(usize, &str)> = ts.iter().map(|t| (t.depth, t.url.as_str())).collect();
            assert_eq!(got, vec![(2, "https://ex.test/c"), (2, "https://ex.test/#top")]);
        }
        _ => panic!("expected a report"),
    }
}

/// A page of a fake site: what its probe declares and what fetching it yields.
enum Page {
    Html(Vec<&'static str>),
    Other(&'static str),
    FetchError,
}

struct Outcome {
    visited: Vec<String>,
    dispatched: Vec<(usize, String)>,
    fetched: Vec<String>,
}

/// Runs the coordinator and one worker in turn over a fake site until every
/// queue is empty.
fn crawl(root: &str, max_depth: usize, site: &HashMap<&str, Page>) -> Outcome {
    let mut c = Crawler::new(root).unwrap();
    c.crawl_depth = max_depth;
    let policy = c.worker_policy();
    let mut discoveries: VecDeque<CrawlTask> = VecDeque::new();
    let mut dispatches: VecDeque<CrawlTask> = VecDeque::new();
    let mut dispatched = Vec::new();
    let mut fetched = Vec::new();
    discoveries.push_back(c.root_task());
    loop {
        if let Some(t) = discoveries.pop_front() {
            if c.on_discovered(&t) == Verdict::Dispatch {
                dispatched.push((t.depth, t.url.page().to_string()));
                dispatches.push_back(t);
            }
            continue;
        }
        if let Some(t) = dispatches.pop_front() {
            if policy.take_up(false, &t) != Admission::Probe {
                continue;
            }
            let page = site.get(t.url.as_str());
            let probe = match page {
                None => Stage::ProbeFailed,
                Some(Page::Html(_)) | Some(Page::FetchError) => {
                    Stage::Probed(Some("text/html".to_string()))
                }
                Some(Page::Other(ct)) => Stage::Probed(Some(ct.to_string())),
            };
            if let Next::Fetch = policy.advance(&t, probe) {
                fetched.push(t.url.as_str().to_string());
                let stage = match page {
                    Some(Page::Html(links)) => {
                        Stage::Fetched(links.iter().map(|l| url(l)).collect())
                    }
                    _ => Stage::FetchFailed,
                };
                if let Next::Report(ts) = policy.advance(&t, stage) {
                    discoveries.extend(ts);
                }
            }
            continue;
        }
        let signal = Signal::Idle {
            discoveries_pending: discoveries.len(),
            dispatches_pending: dispatches.len(),
        };
        if should_shut_down(signal) {
            break;
        }
    }
    Outcome { visited: c.visited().clone(), dispatched, fetched }
}

fn sample_site() -> HashMap<&'static str, Page> {
    let mut site = HashMap::new();
    site.insert("https://ex.test/", Page::Html(vec!["https://ex.test/a", "https://other.test/b"]));
    site.insert("https://ex.test/a", Page::Html(vec!["https://ex.test/c", "https://ex.test/"]));
    site.insert("https://ex.test/c", Page::Html(vec!["https://ex.test/d"]));
    site.insert("https://other.test/b", Page::Html(vec![]));
    site
}

#[test]
fn depth_two_scenario() {
    let site = sample_site();
    let out = crawl("https://ex.test/", 2, &site);
    let visited: HashSet<&str> = out.visited.iter().map(|s| s.as_str()).collect();
    let expected: HashSet<&str> =
        ["https://ex.test/", "https://ex.test/a", "https://ex.test/c"].into_iter().collect();
    assert_eq!(visited, expected);
    assert_eq!(out.visited.len(), 3);
    assert!(!out.fetched.iter().any(|u| u == "https://other.test/b"));
    assert!(!out.fetched.iter().any(|u| u == "https://ex.test/c"));
    assert_eq!(
        out.dispatched,
        vec![(0, "https://ex.test/".to_string()), (1, "https://ex.test/a".to_string())]
    );
}

#[test]
fn fetch_error_marks_visited_without_discoveries() {
    let mut site = HashMap::new();
    site.insert("https://ex.test/", Page::Html(vec!["https://ex.test/broken", "https://ex.test/ok"]));
    site.insert("https://ex.test/broken", Page::FetchError);
    site.insert("https://ex.test/ok", Page::Html(vec![]));
    let out = crawl("https://ex.test/", 3, &site);
    assert!(out.visited.contains(&"https://ex.test/broken".to_string()));
    assert!(out.visited.contains(&"https://ex.test/ok".to_string()));
    assert_eq!(out.visited.len(), 3);
    assert_eq!(out.dispatched.len(), 3);
}

#[test]
fn image_page_not_fetched_in_crawl() {
    let mut site = HashMap::new();
    site.insert("https://ex.test/", Page::Html(vec!["https://ex.test/logo.png"]));
    site.insert("https://ex.test/logo.png", Page::Other("image/png"));
    let out = crawl("https://ex.test/", 3, &site);
    assert!(out.visited.contains(&"https://ex.test/logo.png".to_string()));
    assert_eq!(out.fetched, vec!["https://ex.test/".to_string()]);
}

#[test]
fn crawl_terminates_on_cycle_with_each_page_once() {
    let mut site = HashMap::new();
    site.insert("https://ex.test/", Page::Html(vec!["https://ex.test/a#x", "https://ex.test/b"]));
    site.insert("https://ex.test/a", Page::Html(vec!["https://ex.test/b", "https://ex.test/#y"]));
    site.insert("https://ex.test/b", Page::Html(vec!["https://ex.test/a", "https://ex.test/"]));
    let out = crawl("https://ex.test/", 10, &site);
    assert_eq!(out.dispatched.len(), 3);
    let pages: HashSet<&String> = out.dispatched.iter().map(|(_, p)| p).collect();
    assert_eq!(pages.len(), 3);
    assert!(out.dispatched.iter().all(|(d, _)| *d < 10));
}

#[test]
fn depth_zero_dispatches_nothing() {
    let site = sample_site();
    let out = crawl("https://ex.test/", 0, &site);
    assert!(out.dispatched.is_empty());
    assert_eq!(out.visited, vec!["https://ex.test/".to_string()]);
}
