//! The repositories and search responses that the API returns.
use vstd::prelude::*;
use crate::rate_limit::RateLimitInfo;

verus! {

/// A repository as listed in search results.
#[derive(Clone, Debug, PartialEq)]
pub struct Repository {
    pub id: u64,
    pub name: String,
    pub full_name: String,
    pub html_url: String,
    pub description: Option<String>,
    pub language: Option<String>,
    pub stargazers_count: u32,
    pub forks_count: u32,
    pub open_issues_count: u32,
    pub created_at: String,
    pub updated_at: String,
    pub owner: Owner,
    pub fork: bool,
    pub archived: bool,
    pub topics: Option<Vec<String>>,
}

/// The account that owns a repository.
#[derive(Clone, Debug, PartialEq)]
pub struct Owner {
    pub login: String,
    pub avatar_url: String,
}

/// The body of a successful search response.
#[derive(Clone, Debug)]
pub struct SearchResponse {
    /// Matches reported by the API, before the cap on reachable results.
    pub total_count: u32,
    /// Set when the search timed out and only part of the matches were looked at.
    pub incomplete_results: bool,
    pub items: Vec<Repository>,
}

/// A successful search: the response body and the quota it reported.
#[derive(Clone, Debug)]
pub struct SearchResult {
    pub response: SearchResponse,
    pub rate_limit: Option<RateLimitInfo>,
}

} // verus!
