use vino::commands::keys_to_clear;
use vino::members::{extract_usernames, leaderboard_endpoint, stats_endpoint, MemberResolution};
use vino::models::UserInfo;
use vino::protocol::{present_stats, present_texts, Action, CacheWrite, Event, PipelineError};
use vino::ranking::rank;
use vino::scraper::{make_fresh_writes, split_cached, Aggregation, WakapiScraper};

const PAGE_URL: &str = "https://stats.example.org/leaderboard";

fn s(x: &str) -> String {
    x.to_string()
}

fn strings(xs: &[&str]) -> Vec<String> {
    xs.iter().map(|x| x.to_string()).collect()
}

fn stat(name: &str, total: u64) -> UserInfo {
    UserInfo::new(s(name), total)
}

fn page(handles: &[&str]) -> String {
    let mut body = s("<html><body><h1>Leaderboard</h1>\n");
    for h in handles {
        body.push_str(&format!(
            "<li><strong class=\"text-ellipsis truncate\">@{}</strong> <span>1 h</span></li>\n",
            h
        ));
    }
    body.push_str("<strong class=\"other\">@nobody</strong></body></html>");
    body
}

fn member_list_write(value: &str) -> Action {
    Action::Write(vec![CacheWrite {
        key: s("members"),
        value: s(value),
        ttl_seconds: Some(21600),
    }])
}

#[test]
fn cached_member_list_is_returned_without_page_fetch() {
    let (mut r, a) = MemberResolution::start(s(PAGE_URL), true);
    assert_eq!(a, Action::ReadKeys(strings(&["members"])));
    let a = r.step(Event::KeysRead(vec![Some(s("alice:bob:carol"))]));
    assert_eq!(a, Action::Members(strings(&["alice", "bob", "carol"]), false));
    assert!(r.is_finished());
    let a = r.step(Event::PageFetched(page(&["mallory"])));
    assert_eq!(a, Action::Fail(PipelineError::UnexpectedEvent));
}

#[test]
fn cold_cache_scrapes_once_and_writes_list() {
    let (mut r, a) = MemberResolution::start(s(PAGE_URL), true);
    assert_eq!(a, Action::ReadKeys(strings(&["members"])));
    let a = r.step(Event::KeysRead(vec![None]));
    assert_eq!(a, Action::FetchPage(s(PAGE_URL)));
    let a = r.step(Event::PageFetched(page(&["zoe", "adam", "mia"])));
    assert_eq!(a, member_list_write("zoe:adam:mia"));
    let a = r.step(Event::Written);
    assert_eq!(a, Action::Members(strings(&["zoe", "adam", "mia"]), false));
    assert!(r.is_finished());
}

#[test]
fn member_list_write_failure_is_not_fatal() {
    let (mut r, _) = MemberResolution::start(s(PAGE_URL), false);
    let a = r.step(Event::PageFetched(page(&["zoe"])));
    assert_eq!(a, member_list_write("zoe"));
    let a = r.step(Event::StoreFailed);
    assert_eq!(a, Action::Members(strings(&["zoe"]), true));
}

#[test]
fn no_cache_goes_straight_to_page() {
    let (_, a) = MemberResolution::start(s(PAGE_URL), false);
    assert_eq!(a, Action::FetchPage(s(PAGE_URL)));
}

#[test]
fn empty_page_gives_empty_list_without_write() {
    let (mut r, _) = MemberResolution::start(s(PAGE_URL), false);
    let a = r.step(Event::PageFetched(s("<html>nothing here</html>")));
    assert_eq!(a, Action::Members(vec![], false));
    assert!(r.is_finished());
}

#[test]
fn page_failure_is_scrape_error() {
    let (mut r, _) = MemberResolution::start(s(PAGE_URL), false);
    assert_eq!(r.step(Event::PageFailed), Action::Fail(PipelineError::Scrape));
}

#[test]
fn member_list_read_failure_is_store_error() {
    let (mut r, _) = MemberResolution::start(s(PAGE_URL), true);
    assert_eq!(r.step(Event::StoreFailed), Action::Fail(PipelineError::Store));
}

#[test]
fn extraction_keeps_page_order() {
    let hs = extract_usernames(&page(&["b_2", "a1", "b_2"]));
    assert_eq!(hs, strings(&["b_2", "a1", "b_2"]));
    assert_eq!(extract_usernames("no handles"), Vec::<String>::new());
}

#[test]
fn present_entries_keep_order() {
    let v = vec![Some(s("x")), None, Some(s("y"))];
    assert_eq!(present_texts(&v), strings(&["x", "y"]));
    let w = vec![None, Some(stat("a", 3)), None];
    assert_eq!(present_stats(&w), vec![stat("a", 3)]);
}

#[test]
fn endpoints() {
    assert_eq!(leaderboard_endpoint("stats.example.org"), PAGE_URL);
    assert_eq!(
        stats_endpoint("stats.example.org", "alice"),
        "https://stats.example.org/api/compat/wakatime/v1/users/alice/stats/month"
    );
    let w = WakapiScraper::new(s("w.example"));
    assert_eq!(
        w.stats_endpoint("bob"),
        "https://w.example/api/compat/wakatime/v1/users/bob/stats/month"
    );
}

#[test]
fn rank_orders_by_total_descending() {
    let v = vec![stat("a", 100), stat("b", 500), stat("c", 300)];
    assert_eq!(rank(&v), vec![stat("b", 500), stat("c", 300), stat("a", 100)]);
}

#[test]
fn rank_keeps_order_of_equal_totals() {
    let v = vec![stat("x", 5), stat("y", 9), stat("z", 5), stat("w", 0)];
    assert_eq!(rank(&v), vec![stat("y", 9), stat("x", 5), stat("z", 5), stat("w", 0)]);
    assert_eq!(rank(&vec![]), Vec::<UserInfo>::new());
}

#[test]
fn partial_fetch_failure_keeps_the_rest() {
    let (mut g, a) = Aggregation::start(s(PAGE_URL), false);
    assert_eq!(a, Action::FetchPage(s(PAGE_URL)));
    let a = g.step(Event::PageFetched(page(&["a", "b", "c"])));
    assert_eq!(a, member_list_write("a:b:c"));
    let a = g.step(Event::Written);
    assert_eq!(a, Action::FetchStats(strings(&["a", "b", "c"])));
    let stamp = s("2024-05-01 10:00:00");
    let a = g.step(Event::StatsFetched(
        vec![Some(stat("a", 100)), None, Some(stat("c", 300))],
        stamp.clone(),
    ));
    assert_eq!(
        a,
        Action::Write(vec![
            CacheWrite { key: s("a"), value: s("100"), ttl_seconds: Some(900) },
            CacheWrite { key: s("last_update"), value: stamp.clone(), ttl_seconds: None },
            CacheWrite { key: s("c"), value: s("300"), ttl_seconds: Some(900) },
            CacheWrite { key: s("last_update"), value: stamp.clone(), ttl_seconds: None },
        ])
    );
    let a = g.step(Event::Written);
    assert_eq!(a, Action::Leaderboard(vec![stat("c", 300), stat("a", 100)]));
    assert!(g.is_finished());
}

#[test]
fn cached_totals_are_not_fetched() {
    let (mut g, _) = Aggregation::start(s(PAGE_URL), true);
    let a = g.step(Event::KeysRead(vec![Some(s("a:b:c"))]));
    assert_eq!(a, Action::ReadKeys(strings(&["a", "b", "c"])));
    let a = g.step(Event::KeysRead(vec![Some(s("500")), None, Some(s("100"))]));
    assert_eq!(a, Action::FetchStats(strings(&["b"])));
    let a = g.step(Event::StatsFetched(vec![Some(stat("b", 300))], s("t")));
    assert_eq!(
        a,
        Action::Write(vec![
            CacheWrite { key: s("b"), value: s("300"), ttl_seconds: Some(900) },
            CacheWrite { key: s("last_update"), value: s("t"), ttl_seconds: None },
        ])
    );
    let a = g.step(Event::Written);
    assert_eq!(
        a,
        Action::Leaderboard(vec![stat("a", 500), stat("b", 300), stat("c", 100)])
    );
}

#[test]
fn all_totals_cached_finishes_without_fetch() {
    let (mut g, _) = Aggregation::start(s(PAGE_URL), true);
    g.step(Event::KeysRead(vec![Some(s("a:b"))]));
    let a = g.step(Event::KeysRead(vec![Some(s("7")), Some(s("70"))]));
    assert_eq!(a, Action::Leaderboard(vec![stat("b", 70), stat("a", 7)]));
    assert!(g.is_finished());
}

#[test]
fn all_fetches_failing_gives_cached_entries_only() {
    let (mut g, _) = Aggregation::start(s(PAGE_URL), true);
    g.step(Event::KeysRead(vec![Some(s("a:b"))]));
    g.step(Event::KeysRead(vec![Some(s("7")), None]));
    let a = g.step(Event::StatsFetched(vec![None], s("t")));
    assert_eq!(a, Action::Leaderboard(vec![stat("a", 7)]));
}

#[test]
fn unreadable_cached_total_is_store_error() {
    let (mut g, _) = Aggregation::start(s(PAGE_URL), true);
    g.step(Event::KeysRead(vec![Some(s("a:b"))]));
    let a = g.step(Event::KeysRead(vec![Some(s("abc")), None]));
    assert_eq!(a, Action::Fail(PipelineError::Store));
}

#[test]
fn totals_read_failure_is_store_error() {
    let (mut g, _) = Aggregation::start(s(PAGE_URL), true);
    g.step(Event::KeysRead(vec![Some(s("a"))]));
    assert_eq!(g.step(Event::StoreFailed), Action::Fail(PipelineError::Store));
}

#[test]
fn fresh_write_failure_is_store_error() {
    let (mut g, _) = Aggregation::start(s(PAGE_URL), false);
    g.step(Event::PageFetched(page(&["a"])));
    g.step(Event::Written);
    g.step(Event::StatsFetched(vec![Some(stat("a", 1))], s("t")));
    assert_eq!(g.step(Event::StoreFailed), Action::Fail(PipelineError::Store));
}

#[test]
fn scrape_failure_aborts_aggregation() {
    let (mut g, _) = Aggregation::start(s(PAGE_URL), true);
    g.step(Event::KeysRead(vec![None]));
    assert_eq!(g.step(Event::PageFailed), Action::Fail(PipelineError::Scrape));
    assert!(g.is_finished());
}

#[test]
fn mismatched_answer_is_unexpected() {
    let (mut g, _) = Aggregation::start(s(PAGE_URL), true);
    g.step(Event::KeysRead(vec![Some(s("a:b"))]));
    let a = g.step(Event::KeysRead(vec![None]));
    assert_eq!(a, Action::Fail(PipelineError::UnexpectedEvent));
}

#[test]
fn empty_membership_gives_empty_leaderboard() {
    let (mut g, _) = Aggregation::start(s(PAGE_URL), true);
    g.step(Event::KeysRead(vec![None]));
    let a = g.step(Event::PageFetched(s("<p>empty</p>")));
    assert_eq!(a, Action::Leaderboard(vec![]));
}

#[test]
fn scraper_entry_points_use_the_domain() {
    let w = WakapiScraper::new(s("stats.example.org"));
    let (_, a) = w.get_leaderboard_users(false);
    assert_eq!(a, Action::FetchPage(s(PAGE_URL)));
    let (_, a) = w.scrape_leaderboard(true);
    assert_eq!(a, Action::ReadKeys(strings(&["members"])));
}

#[test]
fn split_cached_separates_hits_and_misses() {
    let ms = strings(&["a", "b", "c"]);
    let (h, p) = split_cached(&ms, &vec![None, Some(s("42")), None]).unwrap();
    assert_eq!(h, vec![stat("b", 42)]);
    assert_eq!(p, strings(&["a", "c"]));
}

#[test]
fn fresh_writes_pair_total_and_stamp() {
    let w = make_fresh_writes(&vec![stat("q", 0)], &s("now"));
    assert_eq!(
        w,
        vec![
            CacheWrite { key: s("q"), value: s("0"), ttl_seconds: Some(900) },
            CacheWrite { key: s("last_update"), value: s("now"), ttl_seconds: None },
        ]
    );
}

#[test]
fn clear_covers_members_and_singletons() {
    let keys = keys_to_clear(&strings(&["a", "b"]));
    assert_eq!(keys, strings(&["a", "b", "last_update", "members"]));
}

#[test]
fn clear_then_resolve_behaves_cold() {
    let keys = keys_to_clear(&strings(&["a"]));
    assert!(keys.contains(&s("members")));
    let (mut r, _) = MemberResolution::start(s(PAGE_URL), true);
    assert_eq!(r.step(Event::KeysRead(vec![None])), Action::FetchPage(s(PAGE_URL)));
}

#[test]
fn stats_count_must_match_request() {
    let (mut g, _) = Aggregation::start(s(PAGE_URL), false);
    g.step(Event::PageFetched(page(&["a", "b"])));
    assert_eq!(g.step(Event::Written), Action::FetchStats(strings(&["a", "b"])));
    let a = g.step(Event::StatsFetched(
        vec![Some(stat("a", 1)), Some(stat("b", 2)), Some(stat("x", 3))],
        s("t"),
    ));
    assert_eq!(a, Action::Fail(PipelineError::UnexpectedEvent));
}
