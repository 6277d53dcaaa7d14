use oss_explorer::controller::{check_response, needs_reset_time, SearchController, SearchError};
use oss_explorer::model::{Owner, Repository, SearchResponse, SearchResult};
use oss_explorer::pagination::PageItem;
use oss_explorer::query::{ArchivedFilter, ForkFilter, SortBy, SortOrder};
use oss_explorer::rate_limit::{rate_limit_from_headers, ClockTime, RateLimitInfo};

fn repo(id: u64, name: &str) -> Repository {
    Repository {
        id,
        name: name.to_string(),
        full_name: format!("owner/{name}"),
        html_url: format!("https://github.com/owner/{name}"),
        description: None,
        language: Some("Rust".to_string()),
        stargazers_count: 10,
        forks_count: 1,
        open_issues_count: 0,
        created_at: "2020-01-01T00:00:00Z".to_string(),
        updated_at: "2021-01-01T00:00:00Z".to_string(),
        owner: Owner { login: "owner".to_string(), avatar_url: String::new() },
        fork: false,
        archived: false,
        topics: None,
    }
}

fn success(total: u32, names: &[&str]) -> Result<SearchResult, SearchError> {
    Ok(SearchResult {
        response: SearchResponse {
            total_count: total,
            incomplete_results: false,
            items: names.iter().enumerate().map(|(i, n)| repo(i as u64, n)).collect(),
        },
        rate_limit: Some(RateLimitInfo { limit: 30, remaining: 29, reset_timestamp: 0 }),
    })
}

fn names(c: &SearchController) -> Vec<String> {
    c.repositories.iter().map(|r| r.name.clone()).collect()
}

#[test]
fn initial_state() {
    let c = SearchController::new();
    assert_eq!(c.filters.language, "All");
    assert_eq!(c.filters.archived_filter, ArchivedFilter::ActiveOnly);
    assert_eq!(c.filters.per_page, 30);
    assert_eq!(c.filters.page, 1);
    assert!(!c.loading);
    assert_eq!(c.total_pages(), 1);
}

#[test]
fn later_search_wins_when_earlier_response_arrives_last() {
    let mut c = SearchController::new();
    c.filters.language = "Go".to_string();
    let a = c.search(1);
    c.filters.language = "Rust".to_string();
    let b = c.search(1);
    assert_ne!(a.generation, b.generation);
    assert!(b.url.contains("language%3ARust"));
    assert!(c.complete(b.generation, success(2, &["b1", "b2"])));
    assert!(!c.loading);
    assert!(!c.complete(a.generation, success(1, &["a1"])));
    assert_eq!(names(&c), vec!["b1", "b2"]);
    assert_eq!(c.total_count, 2);
}

#[test]
fn earlier_response_arriving_first_is_ignored() {
    let mut c = SearchController::new();
    let a = c.search(1);
    let b = c.search(1);
    assert!(!c.complete(a.generation, success(1, &["a1"])));
    assert!(c.loading);
    assert!(c.repositories.is_empty());
    assert!(c.complete(b.generation, success(1, &["b1"])));
    assert_eq!(names(&c), vec!["b1"]);
}

#[test]
fn errors_are_recorded_and_cleared_by_next_search() {
    let mut c = SearchController::new();
    let a = c.search(1);
    assert!(c.complete(a.generation, Err(SearchError::InvalidQuery)));
    assert_eq!(c.error, Some(SearchError::InvalidQuery));
    assert!(!c.loading);
    let _ = c.search(1);
    assert_eq!(c.error, None);
    assert!(c.loading);
}

#[test]
fn rate_limited_403_names_reset_time() {
    let rl = rate_limit_from_headers(Some("60"), Some("0"), Some("1700000000"));
    let clock = ClockTime { hours: 14, minutes: 7 };
    let r = check_response(403, &rl, clock);
    assert_eq!(r, Err(SearchError::RateLimited { reset_time: clock }));
    let msg = r.unwrap_err().message();
    assert_eq!(msg, "Rate limit exceeded. Resets at 14:07. Try again later.");
}

#[test]
fn forbidden_without_headers_is_not_rate_limited() {
    let rl = rate_limit_from_headers(None, None, None);
    let r = check_response(403, &rl, ClockTime { hours: 0, minutes: 0 });
    assert_eq!(r, Err(SearchError::ForbiddenOther));
    assert_eq!(r.unwrap_err().message(), "Rate limit exceeded. Please try again later.");
}

#[test]
fn forbidden_with_quota_left_is_not_rate_limited() {
    let rl = rate_limit_from_headers(Some("60"), Some("12"), Some("1"));
    let r = check_response(403, &rl, ClockTime { hours: 1, minutes: 2 });
    assert_eq!(r, Err(SearchError::ForbiddenOther));
}

#[test]
fn other_statuses() {
    let none = None;
    let t = ClockTime { hours: 0, minutes: 0 };
    assert_eq!(check_response(200, &none, t), Ok(()));
    assert_eq!(check_response(204, &none, t), Ok(()));
    assert_eq!(check_response(422, &none, t), Err(SearchError::InvalidQuery));
    assert_eq!(check_response(404, &none, t), Err(SearchError::Api { status: 404 }));
    assert_eq!(check_response(500, &none, t), Err(SearchError::Api { status: 500 }));
    assert_eq!(check_response(304, &none, t), Err(SearchError::Api { status: 304 }));
}

#[test]
fn error_messages() {
    assert_eq!(
        SearchError::InvalidQuery.message(),
        "Search query too complex or invalid. Try simplifying your search."
    );
    assert_eq!(SearchError::Api { status: 502 }.message(), "GitHub API error: 502");
    assert_eq!(
        SearchError::Transport { detail: "offline".to_string() }.message(),
        "Request failed: offline"
    );
    assert_eq!(
        SearchError::Parse { detail: "eof".to_string() }.message(),
        "Failed to parse response: eof"
    );
}

#[test]
fn navigation_bounds_and_in_flight_refusal() {
    let mut c = SearchController::new();
    let a = c.search(1);
    assert!(c.go_next().is_none());
    assert!(c.complete(a.generation, success(95, &["x"])));
    assert_eq!(c.total_pages(), 4);
    assert!(c.go_prev().is_none());
    assert!(c.go_to_page(0).is_none());
    assert!(c.go_to_page(5).is_none());
    let r = c.go_to_page(3).unwrap();
    assert_eq!(c.filters.page, 3);
    assert!(r.url.ends_with("&per_page=30&page=3"));
    assert!(c.go_to_page(2).is_none());
    assert_eq!(c.filters.page, 3);
    assert!(c.complete(r.generation, success(95, &["y"])));
    assert!(c.go_last().is_some());
    assert_eq!(c.filters.page, 4);
    assert!(c.complete(c.generation, success(95, &["z"])));
    assert!(c.go_next().is_none());
    assert!(c.go_prev().is_some());
    assert_eq!(c.filters.page, 3);
    assert!(c.complete(c.generation, success(95, &["w"])));
    assert!(c.go_first().is_some());
    assert_eq!(c.filters.page, 1);
}

#[test]
fn page_window_of_controller() {
    let mut c = SearchController::new();
    c.set_per_page(10);
    let a = c.search(1);
    c.complete(a.generation, success(5000, &["x"]));
    let r = c.go_to_page(50).unwrap();
    c.complete(r.generation, success(5000, &["x"]));
    assert_eq!(
        c.page_window(),
        vec![
            PageItem::Page(1),
            PageItem::Ellipsis,
            PageItem::Page(48),
            PageItem::Page(49),
            PageItem::Page(50),
            PageItem::Page(51),
            PageItem::Page(52),
            PageItem::Ellipsis,
            PageItem::Page(100),
        ]
    );
}

#[test]
fn per_page_accepts_offered_sizes_only() {
    let mut c = SearchController::new();
    assert!(c.set_per_page(100));
    assert_eq!(c.filters.per_page, 100);
    assert!(!c.set_per_page(0));
    assert!(!c.set_per_page(25));
    assert_eq!(c.filters.per_page, 100);
}

#[test]
fn clear_filters_resets_and_searches_first_page() {
    let mut c = SearchController::new();
    c.filters.query = "tui".to_string();
    c.filters.language = "Rust".to_string();
    c.filters.min_stars = ">=10".to_string();
    c.filters.fork_filter = ForkFilter::ForksOnly;
    c.filters.archived_filter = ArchivedFilter::All;
    c.filters.sort_by = SortBy::Forks;
    c.filters.sort_order = SortOrder::Asc;
    c.set_per_page(50);
    let r = c.clear_filters();
    assert_eq!(c.filters.query, "");
    assert_eq!(c.filters.language, "All");
    assert_eq!(c.filters.min_stars, "");
    assert_eq!(c.filters.fork_filter, ForkFilter::All);
    assert_eq!(c.filters.archived_filter, ArchivedFilter::ActiveOnly);
    assert_eq!(c.filters.sort_by, SortBy::Stars);
    assert_eq!(c.filters.sort_order, SortOrder::Desc);
    assert_eq!(c.filters.per_page, 50);
    assert_eq!(c.filters.page, 1);
    assert!(c.loading);
    assert_eq!(
        r.url,
        "https://api.github.com/search/repositories?q=stars%3A%3E100%20archived%3Afalse&sort=stars&order=desc&per_page=50&page=1"
    );
}

#[test]
fn incomplete_results_are_surfaced() {
    let mut c = SearchController::new();
    let a = c.search(1);
    let mut res = success(3, &["p"]).unwrap();
    res.response.incomplete_results = true;
    assert!(c.complete(a.generation, Ok(res)));
    assert!(c.incomplete_results);
    assert_eq!(c.rate_limit.map(|r| r.remaining), Some(29));
}

#[test]
fn current_page_follows_shrinking_results() {
    let mut c = SearchController::new();
    let a = c.search(1);
    assert!(c.complete(a.generation, success(1000, &["x"])));
    assert_eq!(c.total_pages(), 34);
    let r = c.go_to_page(5).unwrap();
    assert_eq!(c.filters.page, 5);
    assert!(c.complete(r.generation, success(0, &[])));
    assert_eq!(c.total_pages(), 1);
    assert_eq!(c.filters.page, 1);
}

#[test]
fn current_page_clamped_to_last_page() {
    let mut c = SearchController::new();
    let a = c.search(1);
    assert!(c.complete(a.generation, success(1000, &["x"])));
    let r = c.go_to_page(30).unwrap();
    assert!(c.complete(r.generation, success(100, &["y"])));
    assert_eq!(c.filters.page, 4);
}

#[test]
fn larger_page_size_clamps_current_page() {
    let mut c = SearchController::new();
    c.set_per_page(10);
    let a = c.search(1);
    assert!(c.complete(a.generation, success(200, &["x"])));
    let r = c.go_to_page(15).unwrap();
    assert!(c.complete(r.generation, success(200, &["x"])));
    assert!(c.set_per_page(100));
    assert_eq!(c.total_pages(), 2);
    assert_eq!(c.filters.page, 2);
    assert!(c.set_per_page(10));
    assert_eq!(c.filters.page, 2);
}

#[test]
fn snapshot_of_failed_response_is_recorded() {
    let mut c = SearchController::new();
    let a = c.search(1);
    let rl = rate_limit_from_headers(Some("60"), Some("0"), Some("1700000000"));
    c.record_rate_limit(a.generation, rl);
    let clock = ClockTime { hours: 3, minutes: 4 };
    assert!(c.complete(a.generation, check_response(403, &rl, clock).map(|_| unreachable!())));
    assert_eq!(c.rate_limit, rl);
    assert_eq!(c.error, Some(SearchError::RateLimited { reset_time: clock }));
}

#[test]
fn snapshot_of_stale_or_bare_response_is_ignored() {
    let mut c = SearchController::new();
    let a = c.search(1);
    let b = c.search(1);
    let old = Some(RateLimitInfo { limit: 60, remaining: 50, reset_timestamp: 1 });
    c.record_rate_limit(b.generation, old);
    c.record_rate_limit(a.generation, Some(RateLimitInfo { limit: 60, remaining: 0, reset_timestamp: 2 }));
    assert_eq!(c.rate_limit, old);
    c.record_rate_limit(b.generation, None);
    assert_eq!(c.rate_limit, old);
}

#[test]
fn reset_time_needed_only_for_exhausted_403() {
    let exhausted = Some(RateLimitInfo { limit: 60, remaining: 0, reset_timestamp: 1 });
    let left = Some(RateLimitInfo { limit: 60, remaining: 1, reset_timestamp: 1 });
    assert!(needs_reset_time(403, &exhausted));
    assert!(!needs_reset_time(403, &left));
    assert!(!needs_reset_time(403, &None));
    assert!(!needs_reset_time(200, &exhausted));
}
