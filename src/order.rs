//! Ordering and pagination shared by every read path.
use vstd::prelude::*;

verus! {

/// Lexicographic "strictly less" on a sort key paired with its position.
pub open spec fn key_lt(a: (i64, i64), ia: int, b: (i64, i64), ib: int) -> bool {
    a.0 < b.0 || (a.0 == b.0 && (a.1 < b.1 || (a.1 == b.1 && ia < ib)))
}

/// `order` lists every position of `keys` once, ascending by key, ties kept
/// in their input order.
pub open spec fn is_stable_order(keys: Seq<(i64, i64)>, order: Seq<usize>) -> bool {
    &&& order.len() == keys.len()
    &&& forall|i: int| 0 <= i < order.len() ==> (order[i] as int) < keys.len()
    &&& forall|k: usize| (k as int) < keys.len() ==> #[trigger] order.contains(k)
    &&& forall|i: int, j: int|
        0 <= i < j < order.len() ==> key_lt(
            keys[order[i] as int],
            order[i] as int,
            keys[order[j] as int],
            order[j] as int,
        )
}

pub open spec fn key_le(a: (i64, i64), b: (i64, i64)) -> bool {
    a.0 < b.0 || (a.0 == b.0 && a.1 <= b.1)
}

fn key_at_most(a: (i64, i64), b: (i64, i64)) -> (r: bool)
    ensures
        r == key_le(a, b),
{
    a.0 < b.0 || (a.0 == b.0 && a.1 <= b.1)
}

/// Computes the stable ascending order of `keys` (insertion sort on positions).
pub fn stable_order(keys: &Vec<(i64, i64)>) -> (order: Vec<usize>)
    ensures
        is_stable_order(keys@, order@),
{
    let mut order: Vec<usize> = Vec::new();
    let n = keys.len();
    let mut i: usize = 0;
    while i < n
        invariant
            n == keys.len(),
            i <= n,
            order.len() == i,
            forall|t: int| 0 <= t < order.len() ==> (order[t] as int) < i,
            forall|k: usize| k < i ==> #[trigger] order@.contains(k),
            forall|a: int, b: int|
                0 <= a < b < order.len() ==> key_lt(
                    keys@[order[a] as int],
                    order[a] as int,
                    keys@[order[b] as int],
                    order[b] as int,
                ),
        decreases n - i,
    {
        let key = keys[i];
        let mut pos: usize = 0;
        while pos < order.len() && key_at_most(keys[order[pos]], key)
            invariant
                n == keys.len(),
                i < n,
                key == keys@[i as int],
                pos <= order.len(),
                forall|t: int| 0 <= t < order.len() ==> (order[t] as int) < i,
                forall|t: int| 0 <= t < pos ==> key_le(keys@[order[t] as int], key),
            decreases order.len() - pos,
        {
            pos = pos + 1;
        }
        let ghost prev = order@;
        order.insert(pos, i);
        proof {
            assert forall|a: int, b: int| 0 <= a < b < order.len() implies key_lt(
                keys@[order[a] as int],
                order[a] as int,
                keys@[order[b] as int],
                order[b] as int,
            ) by {
                if a < pos as int && b < pos as int {
                    assert(order[a] == prev[a] && order[b] == prev[b]);
                } else if a < pos as int && b == pos as int {
                    assert(key_le(keys@[prev[a] as int], key));
                } else if a < pos as int {
                    assert(order[a] == prev[a] && order[b] == prev[b - 1]);
                } else if a == pos as int {
                    assert(order[b] == prev[b - 1]);
                    assert(!key_le(keys@[prev[pos as int] as int], key));
                    if b - 1 > pos as int {
                        assert(key_lt(
                            keys@[prev[pos as int] as int],
                            prev[pos as int] as int,
                            keys@[prev[b - 1] as int],
                            prev[b - 1] as int,
                        ));
                    }
                } else {
                    assert(order[a] == prev[a - 1] && order[b] == prev[b - 1]);
                }
            }
            assert forall|k: usize| k < i + 1 implies #[trigger] order@.contains(k) by {
                if k < i {
                    assert(prev.contains(k));
                    let t = choose|t: int| 0 <= t < prev.len() && prev[t] == k;
                    if t < pos as int {
                        assert(order[t] == k);
                    } else {
                        assert(order[t + 1] == k);
                    }
                } else {
                    assert(order[pos as int] == i);
                }
            }
        }
        i = i + 1;
    }
    order
}

/// `ceil(total / page_size)` for a non-negative total and a positive page size.
pub open spec fn ceil_div(total: int, page_size: int) -> int {
    (total + page_size - 1) / page_size
}

/// Number of pages reported for `total` items, `ceil(total / page_size)`,
/// held at `i32::MAX` where it would not fit.
pub open spec fn pages_for(total: int, page_size: int) -> int {
    if ceil_div(total, page_size) <= i32::MAX {
        ceil_div(total, page_size)
    } else {
        i32::MAX as int
    }
}

/// Offset of the first item of a 1-indexed page.
pub open spec fn page_start(page: int, page_size: int) -> int {
    (page - 1) * page_size
}

/// The items of page `page` (1-indexed) of `s`: empty beyond the last page.
pub open spec fn page_of<T>(s: Seq<T>, page: int, page_size: int) -> Seq<T> {
    let start = page_start(page, page_size);
    if start < s.len() {
        let end = if start + page_size < s.len() { start + page_size } else { s.len() as int };
        s.subrange(start, end)
    } else {
        Seq::empty()
    }
}

/// Computes the reported page count for `total` items.
pub fn page_count(total: i64, page_size: i32) -> (r: i32)
    requires
        total >= 0,
        page_size > 0,
    ensures
        r == pages_for(total as int, page_size as int),
{
    let ps = page_size as i64;
    let q = total / ps;
    let rem = total % ps;
    proof {
        assert(rem != 0 ==> q < total) by (nonlinear_arith)
            requires
                q == total / ps,
                rem == total % ps,
                total >= 0,
                ps > 0,
        ;
    }
    let pages = if rem == 0 { q } else { q + 1 };
    proof {
        assert(pages == ceil_div(total as int, page_size as int)) by (nonlinear_arith)
            requires
                pages == total / ps + if total % ps == 0 { 0int } else { 1int },
                q == total / ps,
                rem == total % ps,
                ps == page_size,
                total >= 0,
                ps > 0,
        {
        }
    }
    if pages <= i32::MAX as i64 {
        pages as i32
    } else {
        i32::MAX
    }
}

/// Bounds `[start, end)` of page `page` within `len` items.
pub fn page_bounds(len: usize, page: i32, page_size: i32) -> (r: (usize, usize))
    requires
        page >= 1,
        page_size >= 1,
    ensures
        r.0 <= r.1 <= len,
        page_start(page as int, page_size as int) < len ==> r.0 == page_start(
            page as int,
            page_size as int,
        ) && r.1 == (if page_start(page as int, page_size as int) + page_size < len {
            page_start(page as int, page_size as int) + page_size
        } else {
            len as int
        }),
        page_start(page as int, page_size as int) >= len ==> r.0 == r.1,
{
    let p: i64 = page as i64 - 1;
    let ps: i64 = page_size as i64;
    proof {
        assert(0 <= p * ps <= (i32::MAX as int) * (i32::MAX as int)) by (nonlinear_arith)
            requires
                0 <= p < i32::MAX,
                1 <= ps <= i32::MAX,
        ;
    }
    let start = (p * ps) as u64;
    if start >= len as u64 {
        (len, len)
    } else {
        let s = start as usize;
        let end: usize = if (len - s) > page_size as usize {
            s + page_size as usize
        } else {
            len
        };
        (s, end)
    }
}

/// A page of items together with the totals it was cut from.
#[derive(Debug)]
pub struct PaginatedResult<T> {
    pub items: Vec<T>,
    pub total: i64,
    pub page: i32,
    pub page_size: i32,
    pub total_pages: i32,
}

impl<T> PaginatedResult<T> {
    /// Wraps one page of items; `total_pages` is `ceil(total / page_size)`.
    pub fn new(items: Vec<T>, total: i64, page: i32, page_size: i32) -> (r: Self)
        requires
            total >= 0,
            page_size > 0,
        ensures
            r.items == items,
            r.total == total,
            r.page == page,
            r.page_size == page_size,
            r.total_pages == pages_for(total as int, page_size as int),
    {
        let total_pages = page_count(total, page_size);
        PaginatedResult { items, total, page, page_size, total_pages }
    }
}

/// The page count is `ceil(total / page_size)` whenever that fits, and a page
/// past the last one holds no items.
pub proof fn lemma_pagination<T>(s: Seq<T>, page: int, page_size: int)
    requires
        page_size >= 1,
        page >= 1,
    ensures
        ceil_div(s.len() as int, page_size) <= i32::MAX ==> pages_for(s.len() as int, page_size)
            == ceil_div(s.len() as int, page_size),
        ceil_div(s.len() as int, page_size) * page_size >= s.len(),
        page > ceil_div(s.len() as int, page_size) ==> page_of(s, page, page_size).len() == 0,
{
    let n = s.len() as int;
    let c = ceil_div(n, page_size);
    assert(c * page_size >= n) by (nonlinear_arith)
        requires
            c == (n + page_size - 1) / page_size,
            page_size >= 1,
            n >= 0,
    ;
    if page > c {
        assert(page_start(page, page_size) >= n) by (nonlinear_arith)
            requires
                page >= c + 1,
                c * page_size >= n,
                page_size >= 1,
                page_start(page, page_size) == (page - 1) * page_size,
        ;
    }
}

} // verus!
