use crate::plan::{effective_limit, planned_page_size, total_request_count};
use vstd::prelude::*;

verus! {

/// A sequence of fetched pages, each viewed as the sequence of its items.
pub open spec fn pages_view<Item>(pages: Seq<Vec<Item>>) -> Seq<Seq<Item>> {
    pages.map_values(|p: Vec<Item>| p@)
}

/// `s` cut down to its first `limit` elements, or all of `s` when it is
/// shorter than that.
pub open spec fn truncated<Item>(s: Seq<Item>, limit: int) -> Seq<Item> {
    if limit <= s.len() {
        s.take(limit)
    } else {
        s
    }
}

/// What assembly returns: the pages' items concatenated in issue order,
/// cut down to the first `limit` items when more than `limit` arrived.
pub open spec fn assembled<Item>(pages: Seq<Seq<Item>>, limit: int) -> Seq<Item> {
    truncated(pages.flatten(), limit)
}

/// Append the items of every page to `dst`, keeping the pages' issue
/// order and each page's own item order.
#[verifier::loop_isolation(false)]
pub fn append_pages<Item>(dst: &mut Vec<Item>, pages: Vec<Vec<Item>>)
    ensures
        final(dst)@ == old(dst)@ + pages_view(pages@).flatten(),
{
    let ghost all = pages_view(pages@);
    let mut pages = pages;
    proof {
        assert(pages_view(pages@) =~= all.subrange(0, all.len() as int));
    }
    while pages.len() > 0
        invariant
            pages@.len() <= all.len(),
            pages_view(pages@) == all.subrange(all.len() - pages@.len(), all.len() as int),
            dst@ == old(dst)@ + all.subrange(0, all.len() - pages@.len()).flatten(),
        decreases pages@.len(),
    {
        let ghost k = all.len() - pages@.len();
        let ghost pre = pages@;
        let mut page = pages.remove(0);
        proof {
            assert(page@ == pages_view(pre)[0]);
            assert(page@ == all[k]);
            assert(all.subrange(0, k + 1) =~= all.subrange(0, k).push(all[k]));
            all.subrange(0, k).lemma_flatten_push(all[k]);
            assert forall|m: int| 0 <= m < pages@.len() implies pages_view(pages@)[m] == all[k
                + 1 + m] by {
                assert(pages@[m] == pre[m + 1]);
                assert(pages_view(pre)[m + 1] == all.subrange(k, all.len() as int)[m + 1]);
            }
            assert(pages_view(pages@) =~= all.subrange(k + 1, all.len() as int));
        }
        dst.append(&mut page);
    }
    proof {
        assert(all.subrange(0, all.len() as int) =~= all);
    }
}

/// Concatenate the fetched pages' items in the order their requests were
/// issued and truncate the result to the first `limit` items.
/// Concurrent completion timing never reorders output: position in
/// `pages` alone decides where a page's items land.
pub fn assemble<Item>(pages: Vec<Vec<Item>>, limit: u32) -> (out: Vec<Item>)
    ensures
        out@ == assembled(pages_view(pages@), limit as int),
{
    let mut out: Vec<Item> = Vec::new();
    append_pages(&mut out, pages);
    if (limit as usize) < out.len() {
        out.truncate(limit as usize);
    }
    out
}

/// The length of a concatenation of equally sized pages.
pub proof fn lemma_flatten_len_uniform<Item>(pages: Seq<Seq<Item>>, size: int)
    requires
        forall|k: int| 0 <= k < pages.len() ==> (#[trigger] pages[k]).len() == size,
    ensures
        pages.flatten().len() == pages.len() * size,
    decreases pages.len(),
{
    if pages.len() == 0 {
    } else {
        let rest = pages.drop_first();
        assert forall|k: int| 0 <= k < rest.len() implies (#[trigger] rest[k]).len() == size by {
            assert(rest[k] == pages[k + 1]);
        }
        lemma_flatten_len_uniform(rest, size);
        assert(pages.flatten() == pages.first() + rest.flatten());
        assert(size + (pages.len() - 1) * size == pages.len() * size) by (nonlinear_arith);
    }
}

/// Law: when every planned fetch succeeds and each page holds exactly the
/// item count its request asked for, assembly delivers exactly the
/// effective limit `min(requested, total)` of items.
pub proof fn lemma_assembly_delivers_effective_limit<Item>(
    pages: Seq<Seq<Item>>,
    requested: u32,
    total: u32,
    ceiling: int,
    width: int,
)
    requires
        ceiling >= 1,
        width >= 1,
        pages.len() == total_request_count(effective_limit(requested, total), ceiling, width),
        forall|k: int|
            0 <= k < pages.len() ==> (#[trigger] pages[k]).len() == planned_page_size(
                effective_limit(requested, total),
                ceiling,
            ),
    ensures
        assembled(pages, effective_limit(requested, total)).len() == effective_limit(
            requested,
            total,
        ),
{
    let eff = effective_limit(requested, total);
    lemma_flatten_len_uniform(pages, planned_page_size(eff, ceiling));
    crate::plan::lemma_plan_is_minimal(eff, ceiling, width);
}

} // verus!
