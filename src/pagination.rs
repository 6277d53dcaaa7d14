//! Page counts and the window of page numbers offered for navigation.
use vstd::prelude::*;

verus! {

/// The most results the search API lets a query page through.
pub const MAX_REACHABLE_RESULTS: u32 = 1000;

/// The number of pages for `total_count` results, `per_page` to a page: the
/// count is capped at the reachable results, and there is always a page.
pub open spec fn total_pages(total_count: int, per_page: int) -> int {
    let effective = if total_count < 1000 { total_count } else { 1000 };
    if effective == 0 {
        1
    } else {
        (effective + per_page - 1) / per_page
    }
}

/// The number of pages needed to show `total_count` results, `per_page` at a
/// time, at least one.
pub fn calculate_total_pages(total_count: u32, per_page: u32) -> (r: u32)
    requires
        per_page >= 1,
    ensures
        r == total_pages(total_count as int, per_page as int),
        1 <= r <= MAX_REACHABLE_RESULTS,
{
    let effective_total: u32 = if total_count < MAX_REACHABLE_RESULTS {
        total_count
    } else {
        MAX_REACHABLE_RESULTS
    };
    if effective_total == 0 {
        1
    } else {
        let ghost e = effective_total as int;
        let ghost d = per_page as int;
        assert(1 <= (e + d - 1) / d <= e) by (nonlinear_arith)
            requires
                1 <= e <= 1000,
                d >= 1,
        ;
        ((effective_total as u64 + per_page as u64 - 1) / per_page as u64) as u32
    }
}

/// One entry of the page window: a page number, or a mark for omitted pages.
#[derive(Clone, Copy, Debug, PartialEq, Eq, Structural)]
pub enum PageItem {
    Page(u32),
    Ellipsis,
}

/// Whether page `p` of `total` is offered when `current` is shown: the first
/// and last pages, and those within two of the current one.
pub open spec fn is_shown(p: int, current: int, total: int) -> bool {
    p == 1 || p == total || (current - 2 <= p && p <= current + 2)
}

/// The offered pages among `1..=n`, in increasing order.
pub open spec fn shown_pages(current: int, total: int, n: nat) -> Seq<int>
    decreases n,
{
    if n == 0 {
        seq![]
    } else if is_shown(n as int, current, total) {
        shown_pages(current, total, (n - 1) as nat).push(n as int)
    } else {
        shown_pages(current, total, (n - 1) as nat)
    }
}

/// The pages as entries, with an ellipsis between two consecutive pages that
/// are not adjacent numbers.
pub open spec fn with_gaps(pages: Seq<int>) -> Seq<PageItem>
    decreases pages.len(),
{
    if pages.len() == 0 {
        seq![]
    } else if pages.len() == 1 {
        seq![PageItem::Page(pages[0] as u32)]
    } else {
        let prev = pages.drop_last();
        with_gaps(prev) + (if pages.last() > prev.last() + 1 {
            seq![PageItem::Ellipsis]
        } else {
            seq![]
        }) + seq![PageItem::Page(pages.last() as u32)]
    }
}

/// The page window for page `current` of `total`.
pub open spec fn page_window(current: int, total: int) -> Seq<PageItem> {
    with_gaps(shown_pages(current, total, total as nat))
}

proof fn lemma_shown_pages_skip(current: int, total: int, a: nat, b: nat)
    requires
        a <= b,
        forall|k: int| a < k <= b ==> !is_shown(k, current, total),
    ensures
        shown_pages(current, total, b) == shown_pages(current, total, a),
    decreases b,
{
    if b > a {
        lemma_shown_pages_skip(current, total, a, (b - 1) as nat);
    }
}

proof fn lemma_shown_pages_last(current: int, total: int, n: nat)
    ensures
        shown_pages(current, total, n).len() > 0 ==> {
            let s = shown_pages(current, total, n);
            1 <= s.last() <= n
        },
    decreases n,
{
    if n > 0 {
        lemma_shown_pages_last(current, total, (n - 1) as nat);
    }
}

/// The page numbers to offer for page `current` of `total`: pages 1 and
/// `total`, every page within two of `current`, in increasing order, with an
/// ellipsis wherever consecutive offered pages are not adjacent.
pub fn visible_page_window(current: u32, total: u32) -> (r: Vec<PageItem>)
    requires
        total >= 1,
    ensures
        r@ == page_window(current as int, total as int),
{
    let ghost cur = current as int;
    let ghost tot = total as int;
    let lo: u64 = if current >= 2 { current as u64 - 2 } else { 0 };
    let hi: u64 = current as u64 + 2;
    let mut items: Vec<PageItem> = Vec::new();
    let mut p: u32 = 1;
    let mut last: u32 = 0;
    loop
        invariant_except_break
            cur == current as int,
            tot == total as int,
            1 <= p <= total,
            lo == if cur >= 2 { cur - 2 } else { 0 },
            hi == cur + 2,
            is_shown(p as int, cur, tot),
            items@ == with_gaps(shown_pages(cur, tot, (p - 1) as nat)),
            last < p,
            last == 0 <==> shown_pages(cur, tot, (p - 1) as nat).len() == 0,
            last > 0 ==> shown_pages(cur, tot, (p - 1) as nat).last() == last,
        ensures
            items@ == with_gaps(shown_pages(cur, tot, tot as nat)),
        decreases total - p,
    {
        let ghost before = shown_pages(cur, tot, (p - 1) as nat);
        proof {
            lemma_shown_pages_last(cur, tot, (p - 1) as nat);
            assert(shown_pages(cur, tot, p as nat) == before.push(p as int));
            assert(before.push(p as int).drop_last() =~= before);
        }
        if last != 0 && p > last + 1 {
            items.push(PageItem::Ellipsis);
        }
        items.push(PageItem::Page(p));
        assert(items@ =~= with_gaps(before.push(p as int)));
        last = p;
        if p == total {
            break;
        }
        let next: u32 = if (p as u64 + 1) >= lo && (p as u64 + 1) <= hi {
            p + 1
        } else if (p as u64 + 1) < lo {
            if lo < total as u64 {
                lo as u32
            } else {
                total
            }
        } else {
            total
        };
        proof {
            assert forall|k: int| p < k <= next - 1 implies !is_shown(k, cur, tot) by {
                if next == p + 1 {
                } else if (p + 1) < lo {
                    assert(cur >= 2);
                    assert(k < cur - 2);
                } else {
                    assert(k > cur + 2);
                }
            }
            lemma_shown_pages_skip(cur, tot, p as nat, (next - 1) as nat);
        }
        p = next;
    }
    items
}

} // verus!
