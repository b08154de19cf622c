use vstd::prelude::*;

verus! {

/// One entry of the pager under the chapter list.
#[derive(Debug, Clone, Copy, PartialEq, Eq, Structural)]
pub enum PageItem {
    Page(i64),
    Ellipsis,
}

/// Page `i` is listed in the pager: one of the first five, the last, or
/// within two of the current page.
pub open spec fn shown(i: int, page: int, total: int) -> bool {
    i < 5 || i == total - 1 || (page - 2 <= i && i <= page + 2)
}

/// The last listed page below `k`, or -1.
pub open spec fn last_shown_below(k: int, page: int, total: int) -> int
    decreases k,
{
    if k <= 0 {
        -1
    } else if shown(k - 1, page, total) {
        k - 1
    } else {
        last_shown_below(k - 1, page, total)
    }
}

/// The pager entries for pages below `k`: each listed page, with an
/// ellipsis before it where pages were skipped since the one listed before.
pub open spec fn pager_below(k: int, page: int, total: int) -> Seq<PageItem>
    decreases k,
{
    if k <= 0 {
        Seq::empty()
    } else {
        let front = pager_below(k - 1, page, total);
        if shown(k - 1, page, total) {
            let last = last_shown_below(k - 1, page, total);
            let with_gap = if last != -1 && k - 1 > last + 1 {
                front.push(PageItem::Ellipsis)
            } else {
                front
            };
            with_gap.push(PageItem::Page((k - 1) as i64))
        } else {
            front
        }
    }
}

/// The pager for `total_pages` pages while `page` is shown.
pub fn page_items(page: i64, total_pages: i64) -> (r: Vec<PageItem>)
    ensures
        r@ == pager_below(if total_pages > 0 { total_pages as int } else { 0 }, page as int, total_pages as int),
{
    let mut items: Vec<PageItem> = Vec::new();
    if total_pages <= 0 {
        return items;
    }
    let mut last: i64 = -1;
    let mut i: i64 = 0;
    while i < total_pages
        invariant
            0 <= i <= total_pages,
            last as int == last_shown_below(i as int, page as int, total_pages as int),
            -1 <= last < i,
            items@ == pager_below(i as int, page as int, total_pages as int),
        decreases total_pages - i,
    {
        let wide: i128 = i as i128;
        let cur: i128 = page as i128;
        if i < 5 || i == total_pages - 1 || (wide >= cur - 2 && wide <= cur + 2) {
            if last != -1 && i > last + 1 {
                items.push(PageItem::Ellipsis);
            }
            items.push(PageItem::Page(i));
            last = i;
        }
        i = i + 1;
    }
    items
}

/// How many pages of `size` the `total` chapters fill; none where the size
/// is not positive.
pub fn total_pages(total: i64, size: i64) -> (r: i64)
    requires
        total >= 0,
    ensures
        size <= 0 ==> r == 0,
        size > 0 ==> r as int == (total + size - 1) / (size as int),
{
    if size <= 0 {
        return 0;
    }
    let sum: i128 = total as i128 + size as i128 - 1;
    let q: i128 = sum / (size as i128);
    assert(0 <= q <= total) by (nonlinear_arith)
        requires q as int == (sum as int) / (size as int), sum as int == total + size - 1, size > 0, total >= 0;
    q as i64
}

/// Where chapter `id` stands among a story's chapters, in order: its
/// position counted from 1 (0 where it is absent), and the positions of the
/// chapters before and after it.
pub fn chapter_neighbours(ids: &Vec<i64>, id: i64) -> (r: (usize, Option<usize>, Option<usize>))
    ensures
        r.0 == 0 <==> !ids@.contains(id),
        r.0 > 0 ==> r.0 <= ids@.len() && ids@[r.0 - 1] == id
            && forall|j: int| 0 <= j < r.0 - 1 ==> ids@[j] != id,
        r.0 > 0 ==> r.1 == (if r.0 > 1 { Some((r.0 - 2) as usize) } else { None::<usize> }),
        r.0 > 0 ==> r.2 == (if r.0 < ids@.len() { Some(r.0 as usize) } else { None::<usize> }),
        r.0 == 0 ==> r.1 is None && r.2 is None,
{
    let mut i: usize = 0;
    while i < ids.len()
        invariant
            i <= ids@.len(),
            forall|j: int| 0 <= j < i ==> ids@[j] != id,
        decreases ids@.len() - i,
    {
        if ids[i] == id {
            let prev = if i > 0 { Some(i - 1) } else { None };
            let next = if i + 1 < ids.len() { Some(i + 1) } else { None };
            return (i + 1, prev, next);
        }
        i = i + 1;
    }
    (0, None, None)
}

} // verus!
