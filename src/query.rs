//! Search filters and the GitHub search query built from them.
use vstd::prelude::*;
use crate::encoding::{url_encoded, urlencoding};
use crate::text::{decimal, push_decimal};

verus! {

/// The field that results are sorted by.
#[derive(Clone, Copy, Debug, PartialEq, Eq, Structural)]
pub enum SortBy {
    Stars,
    Forks,
    Issues,
    Created,
    Updated,
}

impl SortBy {
    /// The value of the `sort` request parameter.
    pub open spec fn param(self) -> Seq<char> {
        match self {
            SortBy::Stars => "stars"@,
            SortBy::Forks => "forks"@,
            SortBy::Issues => "help-wanted-issues"@,
            SortBy::Created => "created"@,
            SortBy::Updated => "updated"@,
        }
    }

    pub fn as_str(&self) -> (r: &'static str)
        ensures
            r@ == self.param(),
    {
        match self {
            SortBy::Stars => "stars",
            SortBy::Forks => "forks",
            SortBy::Issues => "help-wanted-issues",
            SortBy::Created => "created",
            SortBy::Updated => "updated",
        }
    }
}

/// The direction of the sort.
#[derive(Clone, Copy, Debug, PartialEq, Eq, Structural)]
pub enum SortOrder {
    Desc,
    Asc,
}

impl SortOrder {
    /// The value of the `order` request parameter.
    pub open spec fn param(self) -> Seq<char> {
        match self {
            SortOrder::Desc => "desc"@,
            SortOrder::Asc => "asc"@,
        }
    }

    pub fn as_str(&self) -> (r: &'static str)
        ensures
            r@ == self.param(),
    {
        match self {
            SortOrder::Desc => "desc",
            SortOrder::Asc => "asc",
        }
    }
}

/// Whether forks, original repositories, or both are wanted.
#[derive(Clone, Copy, Debug, PartialEq, Eq, Structural)]
pub enum ForkFilter {
    All,
    OriginalOnly,
    ForksOnly,
}

/// Whether archived repositories, active ones, or both are wanted.
#[derive(Clone, Copy, Debug, PartialEq, Eq, Structural)]
pub enum ArchivedFilter {
    All,
    ActiveOnly,
    ArchivedOnly,
}

impl Default for ForkFilter {
    fn default() -> (r: Self)
        ensures
            r == ForkFilter::All,
    {
        ForkFilter::All
    }
}

impl Default for ArchivedFilter {
    fn default() -> (r: Self)
        ensures
            r == ArchivedFilter::ActiveOnly,
    {
        ArchivedFilter::ActiveOnly
    }
}

impl Default for SortBy {
    fn default() -> (r: Self)
        ensures
            r == SortBy::Stars,
    {
        SortBy::Stars
    }
}

impl Default for SortOrder {
    fn default() -> (r: Self)
        ensures
            r == SortOrder::Desc,
    {
        SortOrder::Desc
    }
}

/// Everything a search is made from, as chosen in the controls.
#[derive(Clone, Debug, Default)]
pub struct SearchFilters {
    /// Free text, sent as it is.
    pub query: String,
    /// A language name; `"All"` or empty means any language.
    pub language: String,
    /// A star-count comparison such as `>=1000`; empty means any count.
    pub min_stars: String,
    pub fork_filter: ForkFilter,
    pub archived_filter: ArchivedFilter,
    pub sort_by: SortBy,
    pub sort_order: SortOrder,
    /// The page wanted, counted from 1.
    pub page: u32,
    /// Results per page.
    pub per_page: u32,
}

/// Clauses joined by single spaces.
pub open spec fn join_clauses(cs: Seq<Seq<char>>) -> Seq<char>
    decreases cs.len(),
{
    if cs.len() == 0 {
        seq![]
    } else if cs.len() == 1 {
        cs[0]
    } else {
        join_clauses(cs.drop_last()) + seq![' '] + cs.last()
    }
}

/// The default clause used when neither free text nor a star bound is given.
pub open spec fn default_clause() -> Seq<char> {
    "stars:>100"@
}

/// The first clause: the free text, else the default clause when no star
/// bound is given either, else nothing.
pub open spec fn base_clause(f: SearchFilters) -> Seq<Seq<char>> {
    if f.query@.len() > 0 {
        seq![f.query@]
    } else if f.min_stars@.len() == 0 {
        seq![default_clause()]
    } else {
        seq![]
    }
}

/// Whether the filters restrict the language.
pub open spec fn restricts_language(f: SearchFilters) -> bool {
    f.language@ != "All"@ && f.language@.len() > 0
}

pub open spec fn language_clause(f: SearchFilters) -> Seq<Seq<char>> {
    if restricts_language(f) {
        seq!["language:"@ + f.language@]
    } else {
        seq![]
    }
}

pub open spec fn stars_clause(f: SearchFilters) -> Seq<Seq<char>> {
    if f.min_stars@.len() > 0 {
        seq!["stars:"@ + f.min_stars@]
    } else {
        seq![]
    }
}

pub open spec fn fork_clause(p: ForkFilter) -> Seq<Seq<char>> {
    match p {
        ForkFilter::All => seq![],
        ForkFilter::OriginalOnly => seq!["fork:false"@],
        ForkFilter::ForksOnly => seq!["fork:true"@],
    }
}

pub open spec fn archived_clause(p: ArchivedFilter) -> Seq<Seq<char>> {
    match p {
        ArchivedFilter::All => seq![],
        ArchivedFilter::ActiveOnly => seq!["archived:false"@],
        ArchivedFilter::ArchivedOnly => seq!["archived:true"@],
    }
}

/// The clauses of the query, in order.
pub open spec fn query_clauses(f: SearchFilters) -> Seq<Seq<char>> {
    base_clause(f) + language_clause(f) + stars_clause(f) + fork_clause(f.fork_filter)
        + archived_clause(f.archived_filter)
}

/// The search query for `f`.
pub open spec fn search_query(f: SearchFilters) -> Seq<char> {
    join_clauses(query_clauses(f))
}

/// The request URL for `f`.
pub open spec fn search_url(f: SearchFilters) -> Seq<char> {
    "https://api.github.com/search/repositories?q="@ + url_encoded(search_query(f)) + "&sort="@
        + f.sort_by.param() + "&order="@ + f.sort_order.param() + "&per_page="@ + decimal(
        f.per_page as nat,
    ) + "&page="@ + decimal(f.page as nat)
}

/// Appends one clause to a query holding `count` clauses.
fn push_clause(out: &mut String, count: usize, clause: &str, Ghost(parts): Ghost<Seq<Seq<char>>>)
    requires
        old(out)@ == join_clauses(parts),
        count == parts.len(),
    ensures
        final(out)@ == join_clauses(parts.push(clause@)),
{
    if count > 0 {
        out.append(" ");
    }
    out.append(clause);
    proof {
        reveal_strlit(" ");
        let ps = parts.push(clause@);
        assert(ps.drop_last() =~= parts);
        if count == 0 {
            assert(out@ =~= clause@);
        } else {
            assert(out@ =~= join_clauses(parts) + seq![' '] + clause@);
        }
    }
}

/// Builds the search query: the clauses of `filters`, in order, joined by
/// single spaces.
pub fn build_search_query(filters: &SearchFilters) -> (r: String)
    ensures
        r@ == search_query(*filters),
{
    let f = filters;
    let mut out = String::new();
    let mut count: usize = 0;
    let ghost mut parts: Seq<Seq<char>> = seq![];
    assert(out@ =~= join_clauses(parts));

    let query_empty = f.query.as_str().is_empty();
    let stars_empty = f.min_stars.as_str().is_empty();
    if query_empty && stars_empty {
        push_clause(&mut out, count, "stars:>100", Ghost(parts));
        proof { parts = parts.push("stars:>100"@); }
        count = count + 1;
    } else if !query_empty {
        push_clause(&mut out, count, f.query.as_str(), Ghost(parts));
        proof { parts = parts.push(f.query@); }
        count = count + 1;
    }
    assert(parts =~= base_clause(*f));

    let all = String::from_str("All");
    if !(f.language == all) && !f.language.as_str().is_empty() {
        let mut clause = String::from_str("language:");
        clause.append(f.language.as_str());
        push_clause(&mut out, count, clause.as_str(), Ghost(parts));
        proof { parts = parts.push(clause@); }
        count = count + 1;
    }
    assert(parts =~= base_clause(*f) + language_clause(*f));

    if !stars_empty {
        let mut clause = String::from_str("stars:");
        clause.append(f.min_stars.as_str());
        push_clause(&mut out, count, clause.as_str(), Ghost(parts));
        proof { parts = parts.push(clause@); }
        count = count + 1;
    }
    assert(parts =~= base_clause(*f) + language_clause(*f) + stars_clause(*f));

    match f.fork_filter {
        ForkFilter::All => {},
        ForkFilter::OriginalOnly => {
            push_clause(&mut out, count, "fork:false", Ghost(parts));
            proof { parts = parts.push("fork:false"@); }
            count = count + 1;
        },
        ForkFilter::ForksOnly => {
            push_clause(&mut out, count, "fork:true", Ghost(parts));
            proof { parts = parts.push("fork:true"@); }
            count = count + 1;
        },
    }
    assert(parts =~= base_clause(*f) + language_clause(*f) + stars_clause(*f) + fork_clause(
        f.fork_filter,
    ));

    match f.archived_filter {
        ArchivedFilter::All => {},
        ArchivedFilter::ActiveOnly => {
            push_clause(&mut out, count, "archived:false", Ghost(parts));
            proof { parts = parts.push("archived:false"@); }
        },
        ArchivedFilter::ArchivedOnly => {
            push_clause(&mut out, count, "archived:true", Ghost(parts));
            proof { parts = parts.push("archived:true"@); }
        },
    }
    assert(parts =~= query_clauses(*f));
    out
}

/// Builds the request URL for `filters`: the encoded query, the sort key and
/// direction, the page size and the page.
pub fn build_search_url(filters: &SearchFilters) -> (r: String)
    ensures
        r@ == search_url(*filters),
{
    let query = build_search_query(filters);
    let mut url = String::from_str("https://api.github.com/search/repositories?q=");
    url.append(urlencoding(query.as_str()).as_str());
    url.append("&sort=");
    url.append(filters.sort_by.as_str());
    url.append("&order=");
    url.append(filters.sort_order.as_str());
    url.append("&per_page=");
    push_decimal(&mut url, filters.per_page as u64);
    url.append("&page=");
    push_decimal(&mut url, filters.page as u64);
    url
}

/// Whether `w` occurs in `s` starting at position `k`.
pub open spec fn occurs_at(s: Seq<char>, w: Seq<char>, k: int) -> bool {
    0 <= k && k + w.len() <= s.len() && s.subrange(k, k + w.len()) == w
}

/// Whether `w` occurs anywhere in `s`.
pub open spec fn occurs_in(s: Seq<char>, w: Seq<char>) -> bool {
    exists|k: int| occurs_at(s, w, k)
}

proof fn lemma_join_push(cs: Seq<Seq<char>>, c: Seq<char>)
    requires
        cs.len() > 0,
    ensures
        join_clauses(cs.push(c)) == join_clauses(cs) + seq![' '] + c,
{
    assert(cs.push(c).drop_last() =~= cs);
}

proof fn lemma_join_starts_with_first(cs: Seq<Seq<char>>)
    requires
        cs.len() > 0,
    ensures
        cs[0].is_prefix_of(join_clauses(cs)),
    decreases cs.len(),
{
    if cs.len() > 1 {
        lemma_join_starts_with_first(cs.drop_last());
        let j = join_clauses(cs.drop_last());
        assert((j + seq![' '] + cs.last()).subrange(0, cs[0].len() as int) =~= j.subrange(
            0,
            cs[0].len() as int,
        ));
    }
}

/// A word without spaces found in `a`, a space, then `b`, lies within `a` or within `b`.
proof fn lemma_occurs_across_space(a: Seq<char>, b: Seq<char>, w: Seq<char>, k: int)
    requires
        w.len() > 0,
        !w.contains(' '),
        occurs_at(a + seq![' '] + b, w, k),
    ensures
        occurs_at(a, w, k) || occurs_at(b, w, k - a.len() - 1),
{
    let s = a + seq![' '] + b;
    if k + w.len() <= a.len() {
        assert(s.subrange(k, k + w.len()) =~= a.subrange(k, k + w.len()));
    } else if k >= a.len() + 1 {
        assert(s.subrange(k, k + w.len()) =~= b.subrange(k - a.len() - 1, k - a.len() - 1 + w.len()));
    } else {
        assert(w[a.len() - k] == s[a.len() as int]);
        assert(w.contains(' '));
    }
}

proof fn lemma_join_excludes(cs: Seq<Seq<char>>, w: Seq<char>)
    requires
        w.len() > 0,
        !w.contains(' '),
        forall|i: int| 0 <= i < cs.len() ==> !occurs_in(#[trigger] cs[i], w),
    ensures
        !occurs_in(join_clauses(cs), w),
    decreases cs.len(),
{
    if cs.len() == 1 {
        assert(!occurs_in(cs[0], w));
    } else if cs.len() > 1 {
        let pre = cs.drop_last();
        assert forall|i: int| 0 <= i < pre.len() implies !occurs_in(#[trigger] pre[i], w) by {
            assert(pre[i] == cs[i]);
        }
        lemma_join_excludes(pre, w);
        assert(!occurs_in(cs.last(), w));
        if occurs_in(join_clauses(cs), w) {
            let k = choose|k: int| occurs_at(join_clauses(cs), w, k);
            lemma_occurs_across_space(join_clauses(pre), cs.last(), w, k);
        }
    }
}

/// `w` does not occur in `s` when its first character is not at any
/// position where it could start.
proof fn lemma_first_char_absent(s: Seq<char>, w: Seq<char>)
    requires
        w.len() > 0,
        forall|j: int| 0 <= j && j + w.len() <= s.len() ==> s[j] != w[0],
    ensures
        !occurs_in(s, w),
{
    if occurs_in(s, w) {
        let k = choose|k: int| occurs_at(s, w, k);
        assert(s.subrange(k, k + w.len())[0] == s[k]);
    }
}

/// A word that begins with a character absent from `prefix` occurs in
/// `prefix` + `m` only where it occurs in `m`.
proof fn lemma_prefixed_excludes(prefix: Seq<char>, m: Seq<char>, w: Seq<char>)
    requires
        w.len() > 0,
        !prefix.contains(w[0]),
        !occurs_in(m, w),
    ensures
        !occurs_in(prefix + m, w),
{
    let s = prefix + m;
    let n = prefix.len() as int;
    if occurs_in(s, w) {
        let k = choose|k: int| occurs_at(s, w, k);
        if k >= n {
            assert(s.subrange(k, k + w.len()) =~= m.subrange(k - n, k - n + w.len()));
            assert(occurs_at(m, w, k - n));
        } else {
            assert(s.subrange(k, k + w.len())[0] == s[k]);
            assert(prefix[k] == w[0]);
        }
    }
}

/// With neither free text nor a star bound, the query opens with the
/// default clause `stars:>100`.
pub proof fn lemma_default_clause_leads(f: SearchFilters)
    requires
        f.query@.len() == 0,
        f.min_stars@.len() == 0,
    ensures
        default_clause().is_prefix_of(search_query(f)),
{
    let cs = query_clauses(f);
    assert(cs[0] == default_clause());
    lemma_join_starts_with_first(cs);
}

/// With the language set to `All`, the query holds no `language:` clause:
/// `language:` occurs nowhere in it, provided the free text and the star
/// bound do not hold it themselves.
pub proof fn lemma_all_languages_adds_no_clause(f: SearchFilters)
    requires
        f.language@ == "All"@,
        !occurs_in(f.query@, "language:"@),
        !occurs_in(f.min_stars@, "language:"@),
    ensures
        !occurs_in(search_query(f), "language:"@),
{
    reveal_strlit("language:");
    reveal_strlit("stars:>100");
    reveal_strlit("stars:");
    reveal_strlit("fork:false");
    reveal_strlit("fork:true");
    reveal_strlit("archived:false");
    reveal_strlit("archived:true");
    let w = "language:"@;
    let cs = query_clauses(f);
    assert(!w.contains(' ')) by {
        assert forall|i: int| 0 <= i < w.len() implies w[i] != ' ' by {}
    }
    assert forall|i: int| 0 <= i < cs.len() implies !occurs_in(#[trigger] cs[i], w) by {
        let c = cs[i];
        if c == f.query@ {
        } else if c == "stars:"@ + f.min_stars@ {
            lemma_prefixed_excludes("stars:"@, f.min_stars@, w);
        } else {
            lemma_first_char_absent(c, w);
        }
    }
    lemma_join_excludes(cs, w);
}

/// With original repositories only, the query holds the clause `fork:false`
/// exactly once and `fork:true` nowhere, provided the free text, the
/// language and the star bound hold neither.
pub proof fn lemma_original_only_fork_clause(f: SearchFilters)
    requires
        f.fork_filter == ForkFilter::OriginalOnly,
        !occurs_in(f.query@, "fork:false"@),
        !occurs_in(f.query@, "fork:true"@),
        !occurs_in(f.language@, "fork:false"@),
        !occurs_in(f.language@, "fork:true"@),
        !occurs_in(f.min_stars@, "fork:false"@),
        !occurs_in(f.min_stars@, "fork:true"@),
    ensures
        exists|k: int| occurs_at(search_query(f), "fork:false"@, k),
        forall|j: int, k: int|
            occurs_at(search_query(f), "fork:false"@, j) && occurs_at(search_query(f), "fork:false"@, k)
                ==> j == k,
        !occurs_in(search_query(f), "fork:true"@),
{
    reveal_strlit("stars:>100");
    reveal_strlit("stars:");
    reveal_strlit("language:");
    reveal_strlit("fork:false");
    reveal_strlit("fork:true");
    reveal_strlit("archived:false");
    reveal_strlit("archived:true");
    let yes = "fork:false"@;
    let no = "fork:true"@;
    let cs = query_clauses(f);
    let pre = base_clause(f) + language_clause(f) + stars_clause(f);
    let arch = archived_clause(f.archived_filter);
    assert(cs =~= pre.push(yes) + arch);
    assert(pre.len() > 0);
    assert(!yes.contains(' ')) by {
        assert forall|i: int| 0 <= i < yes.len() implies yes[i] != ' ' by {}
    }
    assert(!no.contains(' ')) by {
        assert forall|i: int| 0 <= i < no.len() implies no[i] != ' ' by {}
    }
    // No clause but the fork clause holds either word.
    assert forall|i: int| 0 <= i < pre.len() implies !occurs_in(#[trigger] pre[i], yes) && !occurs_in(
        pre[i],
        no,
    ) by {
        let c = pre[i];
        if c == f.query@ {
        } else if c == "stars:"@ + f.min_stars@ {
            lemma_prefixed_excludes("stars:"@, f.min_stars@, yes);
            lemma_prefixed_excludes("stars:"@, f.min_stars@, no);
        } else if c == "language:"@ + f.language@ {
            lemma_prefixed_excludes("language:"@, f.language@, yes);
            lemma_prefixed_excludes("language:"@, f.language@, no);
        } else {
            lemma_first_char_absent(c, yes);
            lemma_first_char_absent(c, no);
        }
    }
    assert forall|i: int| 0 <= i < arch.len() implies !occurs_in(#[trigger] arch[i], yes) && !occurs_in(
        arch[i],
        no,
    ) by {
        lemma_first_char_absent(arch[i], yes);
        lemma_first_char_absent(arch[i], no);
    }
    assert(!occurs_in(yes, no)) by {
        if occurs_in(yes, no) {
            let k = choose|k: int| occurs_at(yes, no, k);
            assert(yes.subrange(k, k + 9)[5] == yes[k + 5]);
        }
    }
    lemma_join_excludes(pre, yes);
    lemma_join_excludes(pre, no);
    let p = join_clauses(pre);
    let at: int = p.len() as int + 1;
    let with_fork = join_clauses(pre.push(yes));
    lemma_join_push(pre, yes);
    assert(!occurs_in(with_fork, no)) by {
        if occurs_in(with_fork, no) {
            let k = choose|k: int| occurs_at(with_fork, no, k);
            lemma_occurs_across_space(p, yes, no, k);
        }
    }
    // Every occurrence of `fork:false` in `with_fork` is the clause itself.
    assert forall|k: int| occurs_at(with_fork, yes, k) implies k == at by {
        lemma_occurs_across_space(p, yes, yes, k);
    }
    assert(occurs_at(with_fork, yes, at)) by {
        assert(with_fork.subrange(at, at + 10) =~= yes);
    }
    let out = search_query(f);
    if arch.len() == 0 {
        assert(cs =~= pre.push(yes));
        assert(out == with_fork);
    } else {
        let a = arch[0];
        assert(cs =~= pre.push(yes).push(a));
        lemma_join_push(pre.push(yes), a);
        assert(out == with_fork + seq![' '] + a);
        assert(!occurs_in(a, yes) && !occurs_in(a, no));
        assert(occurs_at(out, yes, at)) by {
            assert(out.subrange(at, at + 10) =~= with_fork.subrange(at, at + 10));
        }
        assert forall|k: int| occurs_at(out, yes, k) implies k == at by {
            lemma_occurs_across_space(with_fork, a, yes, k);
        }
        assert(!occurs_in(out, no)) by {
            if occurs_in(out, no) {
                let k = choose|k: int| occurs_at(out, no, k);
                lemma_occurs_across_space(with_fork, a, no, k);
            }
        }
    }
}

} // verus!
