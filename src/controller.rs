//! The search controller: the state behind the controls and results, and
//! how it moves when a search starts, when one completes, and on navigation.
//!
//! Searches are asynchronous. Each one is issued under a fresh generation
//! token; a completion is applied only when its token is the latest issued,
//! so a slow response can never replace the results of a later search.
use vstd::prelude::*;
use crate::model::{Repository, SearchResult};
use crate::pagination::{calculate_total_pages, page_window, total_pages, visible_page_window, PageItem};
use crate::query::{build_search_url, search_url, ArchivedFilter, ForkFilter, SearchFilters, SortBy, SortOrder};
use crate::rate_limit::{clock_text, ClockTime, RateLimitInfo};
use crate::text::{decimal, push_decimal};

verus! {

/// Why a search failed.
#[derive(Clone, Debug, PartialEq, Eq)]
pub enum SearchError {
    /// The request could not be sent or no response came back.
    Transport { detail: String },
    /// The quota is used up; it is restored at `reset_time`.
    RateLimited { reset_time: ClockTime },
    /// Access was refused for another reason, or without quota information.
    ForbiddenOther,
    /// The query was rejected as invalid or too complex.
    InvalidQuery,
    /// Any other unsuccessful status.
    Api { status: u16 },
    /// A successful response whose body could not be read.
    Parse { detail: String },
}

/// The message shown for `e`.
pub open spec fn error_message(e: SearchError) -> Seq<char> {
    match e {
        SearchError::Transport { detail } => "Request failed: "@ + detail@,
        SearchError::RateLimited { reset_time } => "Rate limit exceeded. Resets at "@ + clock_text(
            reset_time,
        ) + ". Try again later."@,
        SearchError::ForbiddenOther => "Rate limit exceeded. Please try again later."@,
        SearchError::InvalidQuery => "Search query too complex or invalid. Try simplifying your search."@,
        SearchError::Api { status } => "GitHub API error: "@ + decimal(status as nat),
        SearchError::Parse { detail } => "Failed to parse response: "@ + detail@,
    }
}

impl SearchError {
    /// The message shown to the user.
    pub fn message(&self) -> (r: String)
        ensures
            r@ == error_message(*self),
    {
        match self {
            SearchError::Transport { detail } => {
                let mut s = String::from_str("Request failed: ");
                s.append(detail.as_str());
                s
            },
            SearchError::RateLimited { reset_time } => {
                let mut s = String::from_str("Rate limit exceeded. Resets at ");
                s.append(reset_time.format().as_str());
                s.append(". Try again later.");
                s
            },
            SearchError::ForbiddenOther => String::from_str("Rate limit exceeded. Please try again later."),
            SearchError::InvalidQuery => String::from_str(
                "Search query too complex or invalid. Try simplifying your search.",
            ),
            SearchError::Api { status } => {
                let mut s = String::from_str("GitHub API error: ");
                push_decimal(&mut s, *status as u64);
                s
            },
            SearchError::Parse { detail } => {
                let mut s = String::from_str("Failed to parse response: ");
                s.append(detail.as_str());
                s
            },
        }
    }
}

/// Whether `status` is a success status.
pub open spec fn is_success(status: u16) -> bool {
    200 <= status <= 299
}

/// How a response with `status` is judged before its body is read.
pub open spec fn response_verdict(status: u16, rate_limit: Option<RateLimitInfo>, reset_time: ClockTime) -> Result<(), SearchError> {
    if status == 403 {
        if rate_limit matches Some(rl) && rl.remaining == 0 {
            Err(SearchError::RateLimited { reset_time })
        } else {
            Err(SearchError::ForbiddenOther)
        }
    } else if status == 422 {
        Err(SearchError::InvalidQuery)
    } else if !is_success(status) {
        Err(SearchError::Api { status })
    } else {
        Ok(())
    }
}

/// Judges a search response from its status and the quota it reported.
/// `reset_time` is the local time of day at which `rate_limit` resets; it is
/// only used when the quota is exhausted.
pub fn check_response(status: u16, rate_limit: &Option<RateLimitInfo>, reset_time: ClockTime) -> (r: Result<(), SearchError>)
    ensures
        r == response_verdict(status, *rate_limit, reset_time),
{
    if status == 403 {
        match rate_limit {
            Some(rl) => {
                if rl.remaining == 0 {
                    return Err(SearchError::RateLimited { reset_time });
                }
            },
            None => {},
        }
        Err(SearchError::ForbiddenOther)
    } else if status == 422 {
        Err(SearchError::InvalidQuery)
    } else if !(200 <= status && status <= 299) {
        Err(SearchError::Api { status })
    } else {
        Ok(())
    }
}

/// Whether the snapshot reports no requests left.
pub open spec fn exhausted(rate_limit: Option<RateLimitInfo>) -> bool {
    match rate_limit {
        Some(rl) => rl.remaining == 0,
        None => false,
    }
}

/// Whether judging a response with `status` needs the local time at which
/// the quota resets: only an exhausted quota on a 403 is reported with it.
pub fn needs_reset_time(status: u16, rate_limit: &Option<RateLimitInfo>) -> (r: bool)
    ensures
        r == (status == 403 && exhausted(*rate_limit)),
        !r ==> forall|a: ClockTime, b: ClockTime|
            response_verdict(status, *rate_limit, a) == response_verdict(status, *rate_limit, b),
{
    status == 403 && match rate_limit {
        Some(rl) => rl.remaining == 0,
        None => false,
    }
}

/// A search to send: its URL, and the token to hand back with its outcome.
#[derive(Clone, Debug)]
pub struct SearchRequest {
    pub generation: u64,
    pub url: String,
}

/// The page sizes offered.
pub open spec fn is_page_size(n: u32) -> bool {
    n == 10 || n == 30 || n == 50 || n == 100
}

/// The page size used until another is chosen.
pub const DEFAULT_PER_PAGE: u32 = 30;

/// The state behind the search controls and the results shown.
#[derive(Debug)]
pub struct SearchController {
    /// The filters as currently chosen; `filters.page` is the current page.
    pub filters: SearchFilters,
    /// Matches reported by the last applied search.
    pub total_count: u32,
    pub repositories: Vec<Repository>,
    /// Set while the latest search has not completed.
    pub loading: bool,
    pub error: Option<SearchError>,
    pub rate_limit: Option<RateLimitInfo>,
    pub incomplete_results: bool,
    /// The token of the latest search issued.
    pub generation: u64,
}

/// The token that follows `g`.
pub open spec fn next_generation(g: u64) -> u64 {
    if g == u64::MAX {
        0
    } else {
        (g + 1) as u64
    }
}

/// The state once a search for `page` has been issued from `s`.
pub open spec fn started(s: SearchController, page: u32) -> SearchController {
    SearchController {
        filters: SearchFilters { page, ..s.filters },
        loading: true,
        error: None,
        generation: next_generation(s.generation),
        ..s
    }
}

/// The state once the search issued under `generation` has completed with
/// `outcome`: unchanged unless that search is the latest issued.
pub open spec fn completed(s: SearchController, generation: u64, outcome: Result<SearchResult, SearchError>) -> SearchController {
    if generation != s.generation {
        s
    } else {
        match outcome {
            Ok(res) => SearchController {
                filters: SearchFilters {
                    page: clamp_page(
                        s.filters.page,
                        total_pages(res.response.total_count as int, s.filters.per_page as int),
                    ),
                    ..s.filters
                },
                total_count: res.response.total_count,
                repositories: res.response.items,
                rate_limit: res.rate_limit,
                incomplete_results: res.response.incomplete_results,
                loading: false,
                ..s
            },
            Err(e) => SearchController { error: Some(e), loading: false, ..s },
        }
    }
}

/// `page`, moved back to the last page when there are only `count` pages.
pub open spec fn clamp_page(page: u32, count: int) -> u32 {
    if page > count {
        count as u32
    } else {
        page
    }
}

/// The state once the response to the search issued under `generation`
/// reported `rate_limit`: the snapshot is kept when there is one and that
/// search is the latest issued.
pub open spec fn rate_limit_recorded(s: SearchController, generation: u64, rate_limit: Option<RateLimitInfo>) -> SearchController {
    if generation == s.generation && rate_limit is Some {
        SearchController { rate_limit, ..s }
    } else {
        s
    }
}

/// The number of pages of the current results.
pub open spec fn page_count(s: SearchController) -> int {
    total_pages(s.total_count as int, s.filters.per_page as int)
}

/// Whether navigation to `page` is accepted: it exists and no search is in flight.
pub open spec fn can_navigate(s: SearchController, page: int) -> bool {
    1 <= page <= page_count(s) && !s.loading
}

/// The state after asking to move to `page`.
pub open spec fn navigated(s: SearchController, page: int) -> SearchController {
    if can_navigate(s, page) {
        started(s, page as u32)
    } else {
        s
    }
}

impl SearchController {
    /// Well-formed: a page size to divide by, and a current page counted
    /// from 1 that is one of the pages of the current results.
    pub open spec fn wf(&self) -> bool {
        &&& self.filters.per_page >= 1
        &&& 1 <= self.filters.page <= page_count(*self)
    }

    /// The state before the first search: no text, any language, no star
    /// bound, forks included, archived repositories left out, most stars first.
    pub fn new() -> (r: Self)
        ensures
            r.wf(),
            r.filters.query@.len() == 0,
            r.filters.language@ == "All"@,
            r.filters.min_stars@.len() == 0,
            r.filters.fork_filter == ForkFilter::All,
            r.filters.archived_filter == ArchivedFilter::ActiveOnly,
            r.filters.sort_by == SortBy::Stars,
            r.filters.sort_order == SortOrder::Desc,
            r.filters.page == 1,
            r.filters.per_page == DEFAULT_PER_PAGE,
            r.total_count == 0,
            r.repositories@.len() == 0,
            !r.loading,
            r.error is None,
            r.rate_limit is None,
            !r.incomplete_results,
            r.generation == 0,
    {
        SearchController {
            filters: SearchFilters {
                query: String::new(),
                language: String::from_str("All"),
                min_stars: String::new(),
                fork_filter: ForkFilter::All,
                archived_filter: ArchivedFilter::ActiveOnly,
                sort_by: SortBy::Stars,
                sort_order: SortOrder::Desc,
                page: 1,
                per_page: DEFAULT_PER_PAGE,
            },
            total_count: 0,
            repositories: Vec::new(),
            loading: false,
            error: None,
            rate_limit: None,
            incomplete_results: false,
            generation: 0,
        }
    }

    /// Issues a search for `page` with the current filters: marks it in
    /// flight, clears the error, and returns the request under a new token.
    pub fn search(&mut self, page: u32) -> (r: SearchRequest)
        requires
            old(self).wf(),
            1 <= page <= page_count(*old(self)),
        ensures
            *final(self) == started(*old(self), page),
            final(self).wf(),
            r.generation == final(self).generation,
            r.url@ == search_url(final(self).filters),
    {
        self.filters.page = page;
        self.loading = true;
        self.error = None;
        self.generation = if self.generation == u64::MAX { 0 } else { self.generation + 1 };
        let url = build_search_url(&self.filters);
        SearchRequest { generation: self.generation, url }
    }

    /// Applies the outcome of the search issued under `generation`, unless a
    /// later search has been issued since; says whether it was applied. When
    /// fewer pages are left than the current page, the last page becomes
    /// the current one.
    pub fn complete(&mut self, generation: u64, outcome: Result<SearchResult, SearchError>) -> (applied: bool)
        requires
            old(self).wf(),
        ensures
            final(self).wf(),
            applied == (generation == old(self).generation),
            *final(self) == completed(*old(self), generation, outcome),
    {
        if generation != self.generation {
            return false;
        }
        match outcome {
            Ok(res) => {
                self.total_count = res.response.total_count;
                self.repositories = res.response.items;
                self.rate_limit = res.rate_limit;
                self.incomplete_results = res.response.incomplete_results;
                let count = calculate_total_pages(self.total_count, self.filters.per_page);
                if self.filters.page > count {
                    self.filters.page = count;
                }
            },
            Err(e) => {
                self.error = Some(e);
            },
        }
        self.loading = false;
        true
    }

    /// Keeps the quota snapshot that came with the response to the search
    /// issued under `generation`, whether or not that search succeeded;
    /// ignored for a search that is no longer the latest, and when the
    /// response carried no snapshot.
    pub fn record_rate_limit(&mut self, generation: u64, rate_limit: Option<RateLimitInfo>)
        requires
            old(self).wf(),
        ensures
            final(self).wf(),
            *final(self) == rate_limit_recorded(*old(self), generation, rate_limit),
    {
        if generation == self.generation && rate_limit.is_some() {
            self.rate_limit = rate_limit;
        }
    }

    /// The number of pages of the current results.
    pub fn total_pages(&self) -> (r: u32)
        requires
            self.wf(),
        ensures
            r == page_count(*self),
            r >= 1,
    {
        calculate_total_pages(self.total_count, self.filters.per_page)
    }

    /// Moves to `page` and searches for it; refused, with nothing changed,
    /// when the page does not exist or a search is in flight.
    pub fn go_to_page(&mut self, page: u32) -> (r: Option<SearchRequest>)
        requires
            old(self).wf(),
        ensures
            final(self).wf(),
            *final(self) == navigated(*old(self), page as int),
            r is Some <==> can_navigate(*old(self), page as int),
            r matches Some(req) ==> req.generation == final(self).generation && req.url@
                == search_url(final(self).filters),
    {
        if page >= 1 && page <= self.total_pages() && !self.loading {
            Some(self.search(page))
        } else {
            None
        }
    }

    /// Moves to the previous page, if there is one.
    pub fn go_prev(&mut self) -> (r: Option<SearchRequest>)
        requires
            old(self).wf(),
        ensures
            final(self).wf(),
            *final(self) == navigated(*old(self), old(self).filters.page - 1),
            r is Some <==> can_navigate(*old(self), old(self).filters.page - 1),
            r matches Some(req) ==> req.generation == final(self).generation && req.url@
                == search_url(final(self).filters),
    {
        let page = self.filters.page;
        if page > 1 {
            self.go_to_page(page - 1)
        } else {
            None
        }
    }

    /// Moves to the next page, if there is one.
    pub fn go_next(&mut self) -> (r: Option<SearchRequest>)
        requires
            old(self).wf(),
        ensures
            final(self).wf(),
            *final(self) == navigated(*old(self), old(self).filters.page + 1),
            r is Some <==> can_navigate(*old(self), old(self).filters.page + 1),
            r matches Some(req) ==> req.generation == final(self).generation && req.url@
                == search_url(final(self).filters),
    {
        let page = self.filters.page;
        if page < self.total_pages() {
            self.go_to_page(page + 1)
        } else {
            None
        }
    }

    /// Moves to the first page.
    pub fn go_first(&mut self) -> (r: Option<SearchRequest>)
        requires
            old(self).wf(),
        ensures
            final(self).wf(),
            *final(self) == navigated(*old(self), 1),
            r is Some <==> can_navigate(*old(self), 1),
            r matches Some(req) ==> req.generation == final(self).generation && req.url@
                == search_url(final(self).filters),
    {
        self.go_to_page(1)
    }

    /// Moves to the last page.
    pub fn go_last(&mut self) -> (r: Option<SearchRequest>)
        requires
            old(self).wf(),
        ensures
            final(self).wf(),
            *final(self) == navigated(*old(self), page_count(*old(self))),
            r is Some <==> can_navigate(*old(self), page_count(*old(self))),
            r matches Some(req) ==> req.generation == final(self).generation && req.url@
                == search_url(final(self).filters),
    {
        let last = self.total_pages();
        self.go_to_page(last)
    }

    /// Chooses the page size when it is one of those offered, and says
    /// whether it was; nothing changes otherwise. When fewer pages are left
    /// than the current page, the last page becomes the current one.
    pub fn set_per_page(&mut self, per_page: u32) -> (accepted: bool)
        requires
            old(self).wf(),
        ensures
            final(self).wf(),
            accepted == is_page_size(per_page),
            accepted ==> *final(self) == (SearchController {
                filters: SearchFilters {
                    per_page,
                    page: clamp_page(
                        old(self).filters.page,
                        total_pages(old(self).total_count as int, per_page as int),
                    ),
                    ..old(self).filters
                },
                ..*old(self)
            }),
            !accepted ==> *final(self) == *old(self),
    {
        if per_page == 10 || per_page == 30 || per_page == 50 || per_page == 100 {
            self.filters.per_page = per_page;
            let count = calculate_total_pages(self.total_count, per_page);
            if self.filters.page > count {
                self.filters.page = count;
            }
            true
        } else {
            false
        }
    }

    /// Puts every filter back to its initial choice, keeping the page size,
    /// and searches for the first page.
    pub fn clear_filters(&mut self) -> (r: SearchRequest)
        requires
            old(self).wf(),
        ensures
            final(self).wf(),
            final(self).filters.query@.len() == 0,
            final(self).filters.language@ == "All"@,
            final(self).filters.min_stars@.len() == 0,
            final(self).filters.fork_filter == ForkFilter::All,
            final(self).filters.archived_filter == ArchivedFilter::ActiveOnly,
            final(self).filters.sort_by == SortBy::Stars,
            final(self).filters.sort_order == SortOrder::Desc,
            final(self).filters.per_page == old(self).filters.per_page,
            final(self).filters.page == 1,
            final(self).total_count == old(self).total_count,
            final(self).repositories == old(self).repositories,
            final(self).rate_limit == old(self).rate_limit,
            final(self).incomplete_results == old(self).incomplete_results,
            final(self).loading,
            final(self).error is None,
            final(self).generation == next_generation(old(self).generation),
            r.generation == final(self).generation,
            r.url@ == search_url(final(self).filters),
    {
        self.filters.query = String::new();
        self.filters.language = String::from_str("All");
        self.filters.min_stars = String::new();
        self.filters.fork_filter = ForkFilter::All;
        self.filters.archived_filter = ArchivedFilter::ActiveOnly;
        self.filters.sort_by = SortBy::Stars;
        self.filters.sort_order = SortOrder::Desc;
        self.search(1)
    }

    /// The page numbers to offer around the current page.
    pub fn page_window(&self) -> (r: Vec<PageItem>)
        requires
            self.wf(),
        ensures
            r@ == page_window(self.filters.page as int, page_count(*self)),
    {
        let total = self.total_pages();
        visible_page_window(self.filters.page, total)
    }
}

/// The state after issuing a search with `filters` for `page`.
pub open spec fn started_with(s: SearchController, filters: SearchFilters, page: u32) -> SearchController {
    started(SearchController { filters, ..s }, page)
}

/// A search issued before another one never decides what is shown: whether
/// its response arrives after the later search's or before it, the state
/// ends as the later search's outcome alone makes it.
pub proof fn lemma_later_search_wins(
    s: SearchController,
    filters_a: SearchFilters,
    filters_b: SearchFilters,
    page: u32,
    outcome_a: Result<SearchResult, SearchError>,
    outcome_b: Result<SearchResult, SearchError>,
)
    ensures
        ({
            let s1 = started_with(s, filters_a, page);
            let s2 = started_with(s1, filters_b, page);
            let only_b = completed(s2, s2.generation, outcome_b);
            &&& completed(completed(s2, s2.generation, outcome_b), s1.generation, outcome_a) == only_b
            &&& completed(completed(s2, s1.generation, outcome_a), s2.generation, outcome_b) == only_b
            &&& outcome_b matches Ok(res) ==> only_b.repositories == res.response.items
                && only_b.total_count == res.response.total_count
        }),
{
}

} // verus!
