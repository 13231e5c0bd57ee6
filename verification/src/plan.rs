use vstd::arithmetic::div_mod::{
    lemma_div_pos_is_pos, lemma_fundamental_div_mod, lemma_mod_division_less_than_divisor,
    lemma_multiply_divide_lt,
};
use vstd::prelude::*;

verus! {

/// Identifier for one of the remote track-listing methods the engine can
/// drive.  Planning and assembly are identical for every method; only the
/// unverified transport layer cares which remote endpoint a request names.
#[derive(Clone, Copy, PartialEq, Eq, Structural, Debug)]
pub enum RemoteMethod {
    LovedTracks,
    RecentTracks,
}

/// One page fetch to issue: a remote method, a 1-based page index, and the
/// number of items the page asks for.  Immutable once planned.
#[derive(Clone, Copy, PartialEq, Eq, Structural, Debug)]
pub struct PageRequest {
    pub method: RemoteMethod,
    pub page_index: u32,
    pub page_size: u32,
}

/// Every page request of one retrieval, grouped for execution: a run of
/// batches holding exactly the batch width of requests each, then one
/// final batch of fewer requests (possibly none).  Page indices are
/// strictly increasing starting at 1 and continue across batches.
pub struct RetrievalPlan {
    pub full_batches: Vec<Vec<PageRequest>>,
    pub remainder_batch: Vec<PageRequest>,
}

/// The number of items one retrieval will actually deliver: the smaller of
/// what the caller asked for and what the remote source reports it holds.
pub open spec fn effective_limit(requested: u32, total: u32) -> int {
    if requested <= total {
        requested as int
    } else {
        total as int
    }
}

/// Number of full-width batches the planner builds for an effective limit
/// `eff`: none on the single-page path, otherwise one per whole
/// `ceiling * width` super-chunk of the limit.
pub open spec fn full_batch_count(eff: int, ceiling: int, width: int) -> int {
    if eff <= ceiling {
        0
    } else {
        eff / (ceiling * width)
    }
}

/// Number of requests in the final, partial batch: the whole retrieval as
/// one request when it fits in a single page, otherwise one
/// ceiling-sized request per page needed for what the full batches do not
/// cover.
pub open spec fn remainder_request_count(eff: int, ceiling: int, width: int) -> int {
    if eff <= 0 {
        0
    } else if eff <= ceiling {
        1
    } else {
        (eff % (ceiling * width) + ceiling - 1) / ceiling
    }
}

/// The uniform page size the planner asks for: the whole effective limit
/// when it fits in one page, otherwise the page ceiling on every request,
/// with any slack in the last page trimmed at assembly.
pub open spec fn planned_page_size(eff: int, ceiling: int) -> int {
    if eff <= ceiling {
        eff
    } else {
        ceiling
    }
}

/// How many page requests the whole plan issues.
pub open spec fn total_request_count(eff: int, ceiling: int, width: int) -> int {
    full_batch_count(eff, ceiling, width) * width + remainder_request_count(eff, ceiling, width)
}

/// The shape the planner promises: exactly the batches, page indices and
/// page sizes that the chunking algorithm prescribes for effective limit
/// `eff`, page ceiling `ceiling` and batch width `width`.
pub open spec fn plan_matches(
    p: RetrievalPlan,
    method: RemoteMethod,
    eff: int,
    ceiling: int,
    width: int,
) -> bool {
    &&& p.full_batches@.len() == full_batch_count(eff, ceiling, width)
    &&& (forall|i: int|
        0 <= i < p.full_batches@.len() ==> (#[trigger] p.full_batches@[i])@.len() == width)
    &&& (forall|i: int, j: int|
        0 <= i < p.full_batches@.len() && 0 <= j < width ==> {
            let r = #[trigger] p.full_batches@[i]@[j];
            r.method == method && r.page_index == i * width + j + 1 && r.page_size == ceiling
        })
    &&& p.remainder_batch@.len() == remainder_request_count(eff, ceiling, width)
    &&& (forall|k: int|
        0 <= k < p.remainder_batch@.len() ==> {
            let r = #[trigger] p.remainder_batch@[k];
            r.method == method && r.page_index == full_batch_count(eff, ceiling, width) * width
                + k + 1 && r.page_size == planned_page_size(eff, ceiling)
        })
}

/// Compute the page requests needed to deliver `min(requested_limit,
/// total_available)` items, grouped into batches of `batch_width`
/// ceiling-sized pages plus one final partial batch.  A limit that fits in
/// a single page yields exactly one request for exactly that many items; a
/// limit of zero yields an empty plan.
#[verifier::loop_isolation(false)]
pub fn plan(
    method: RemoteMethod,
    requested_limit: u32,
    total_available: u32,
    page_ceiling: u32,
    batch_width: u32,
) -> (p: RetrievalPlan)
    requires
        page_ceiling >= 1,
        batch_width >= 1,
        page_ceiling * batch_width <= u32::MAX,
    ensures
        plan_matches(
            p,
            method,
            effective_limit(requested_limit, total_available),
            page_ceiling as int,
            batch_width as int,
        ),
{
    let eff: u32 = if requested_limit <= total_available {
        requested_limit
    } else {
        total_available
    };
    if eff == 0 {
        return RetrievalPlan { full_batches: Vec::new(), remainder_batch: Vec::new() };
    }
    if eff <= page_ceiling {
        let mut remainder_batch: Vec<PageRequest> = Vec::new();
        remainder_batch.push(PageRequest { method, page_index: 1, page_size: eff });
        return RetrievalPlan { full_batches: Vec::new(), remainder_batch };
    }
    let super_chunk: u32 = page_ceiling * batch_width;
    proof {
        assert(page_ceiling as int * batch_width as int >= 1) by (nonlinear_arith)
            requires
                page_ceiling >= 1,
                batch_width >= 1,
        ;
    }
    let full: u32 = eff / super_chunk;
    let remainder_items: u32 = eff % super_chunk;
    proof {
        lemma_fundamental_div_mod(eff as int, super_chunk as int);
        lemma_mod_division_less_than_divisor(eff as int, super_chunk as int);
        assert(full as int * batch_width as int <= eff as int) by (nonlinear_arith)
            requires
                (super_chunk as int * (full as int)) <= (eff as int),
                super_chunk as int == page_ceiling as int * batch_width as int,
                page_ceiling >= 1,
                batch_width >= 1,
                (full as int) >= 0,
        ;
    }
    let mut full_batches: Vec<Vec<PageRequest>> = Vec::new();
    let mut i: u32 = 0;
    while i < full
        invariant
            i <= full,
            full_batches@.len() == i as int,
            forall|a: int|
                0 <= a < i as int ==> (#[trigger] full_batches@[a])@.len() == batch_width,
            forall|a: int, b: int|
                0 <= a < i as int && 0 <= b < batch_width as int ==> {
                    let r = #[trigger] full_batches@[a]@[b];
                    r.method == method && r.page_index == a * batch_width + b + 1
                        && r.page_size == page_ceiling
                },
        decreases full - i,
    {
        let mut batch: Vec<PageRequest> = Vec::new();
        let mut j: u32 = 0;
        while j < batch_width
            invariant
                j <= batch_width,
                i < full,
                batch@.len() == j as int,
                forall|b: int|
                    0 <= b < j as int ==> {
                        let r = #[trigger] batch@[b];
                        r.method == method
                            && r.page_index == i as int * batch_width as int + b + 1
                            && r.page_size == page_ceiling
                    },
            decreases batch_width - j,
        {
            proof {
                assert(i as int * batch_width as int + j as int + 1 <= full as int
                    * batch_width as int) by (nonlinear_arith)
                    requires
                        (i as int) < (full as int),
                        (j as int) < (batch_width as int),
                        batch_width >= 1,
                ;
            }
            let page_index: u32 = i * batch_width + j + 1;
            batch.push(PageRequest { method, page_index, page_size: page_ceiling });
            j = j + 1;
        }
        full_batches.push(batch);
        i = i + 1;
    }
    let mut remainder_batch: Vec<PageRequest> = Vec::new();
    if remainder_items > 0 {
        let calls_wide: u64 = (remainder_items as u64 + page_ceiling as u64 - 1)
            / page_ceiling as u64;
        proof {
            lemma_fundamental_div_mod(
                remainder_items as int + page_ceiling as int - 1,
                page_ceiling as int,
            );
            lemma_mod_division_less_than_divisor(
                remainder_items as int + page_ceiling as int - 1,
                page_ceiling as int,
            );
            assert(calls_wide as int <= remainder_items as int) by (nonlinear_arith)
                requires
                    (page_ceiling as int * (calls_wide as int)) <= (remainder_items as int
                        + page_ceiling as int - 1),
                    page_ceiling >= 1,
                    remainder_items >= 1,
                    (calls_wide as int) >= 0,
            ;
        }
        let calls: u32 = calls_wide as u32;
        proof {
            let ci = page_ceiling as int;
            let wi = batch_width as int;
            let fi = full as int;
            let qi = calls as int;
            let ti = fi * wi + qi;
            assert(ci * (fi * wi) == (ci * wi) * fi) by (nonlinear_arith);
            assert(ci * ti == ci * (fi * wi) + ci * qi) by (nonlinear_arith)
                requires
                    ti == fi * wi + qi,
            ;
            assert(ci * ti <= eff as int + ci - 1);
            assert(ti <= eff as int) by (nonlinear_arith)
                requires
                    (ci * ti) <= (eff as int + ci - 1),
                    ci >= 1,
                    (eff as int) >= 0,
                    ti >= 0,
            ;
        }
        let base: u32 = full * batch_width;
        let mut k: u32 = 0;
        while k < calls
            invariant
                k <= calls,
                remainder_batch@.len() == k as int,
                forall|b: int|
                    0 <= b < k as int ==> {
                        let r = #[trigger] remainder_batch@[b];
                        r.method == method
                            && r.page_index == full as int * batch_width as int + b + 1
                            && r.page_size == page_ceiling
                    },
            decreases calls - k,
        {
            let page_index: u32 = base + k + 1;
            remainder_batch.push(PageRequest { method, page_index, page_size: page_ceiling });
            k = k + 1;
        }
    } else {
        proof {
            vstd::arithmetic::div_mod::lemma_basic_div(
                page_ceiling as int - 1,
                page_ceiling as int,
            );
        }
    }
    RetrievalPlan { full_batches, remainder_batch }
}

/// The request at position `k` (0-based) of the plan's issue order: the
/// full batches first, position by position, then the remainder batch.
pub open spec fn plan_request_at(p: RetrievalPlan, width: int, k: int) -> PageRequest {
    if k < p.full_batches@.len() * width {
        p.full_batches@[k / width]@[k % width]
    } else {
        p.remainder_batch@[k - p.full_batches@.len() * width]
    }
}

/// Law: page indices across the whole plan, read in issue order, are
/// exactly 1, 2, ..., n: strictly increasing from 1 with no gaps and no
/// repeats, however many batches the planner generated.
pub proof fn lemma_plan_indices_contiguous(
    p: RetrievalPlan,
    method: RemoteMethod,
    eff: int,
    ceiling: int,
    width: int,
)
    requires
        plan_matches(p, method, eff, ceiling, width),
        ceiling >= 1,
        width >= 1,
    ensures
        forall|k: int|
            0 <= k < total_request_count(eff, ceiling, width) ==> (#[trigger] plan_request_at(
                p,
                width,
                k,
            )).page_index == k + 1,
{
    let fb = p.full_batches@.len() as int;
    assert forall|k: int|
        0 <= k < total_request_count(eff, ceiling, width) implies (#[trigger] plan_request_at(
        p,
        width,
        k,
    )).page_index == k + 1 by {
        if k < fb * width {
            lemma_fundamental_div_mod(k, width);
            lemma_mod_division_less_than_divisor(k, width);
            lemma_div_pos_is_pos(k, width);
            assert(width * fb == fb * width) by (nonlinear_arith);
            lemma_multiply_divide_lt(k, width, fb);
            let r = p.full_batches@[k / width]@[k % width];
            assert(r.page_index == (k / width) * width + (k % width) + 1);
        } else {
            let r = p.remainder_batch@[k - fb * width];
            assert(r.page_index == fb * width + (k - fb * width) + 1);
        }
    }
}

/// Law: a request that fits in one page never takes the chunked path.
/// Whenever the caller asks for at least one and at most one page
/// ceiling's worth of items, and the source holds at least that many, the
/// plan is exactly one batch holding exactly one request for exactly the
/// requested count.
pub proof fn lemma_single_page_plan(
    p: RetrievalPlan,
    method: RemoteMethod,
    requested: u32,
    total: u32,
    ceiling: int,
    width: int,
)
    requires
        plan_matches(p, method, effective_limit(requested, total), ceiling, width),
        1 <= requested,
        requested <= ceiling,
        requested <= total,
        width >= 1,
    ensures
        p.full_batches@.len() == 0,
        p.remainder_batch@.len() == 1,
        p.remainder_batch@[0].method == method,
        p.remainder_batch@[0].page_index == 1,
        p.remainder_batch@[0].page_size == requested,
{
}

/// Law: the plan is the minimal set of page fetches that covers the
/// effective limit.  The planned requests' page sizes sum to at least
/// `eff`, and with one request fewer even ceiling-sized pages could not
/// reach `eff`.
pub proof fn lemma_plan_is_minimal(eff: int, ceiling: int, width: int)
    requires
        0 <= eff,
        ceiling >= 1,
        width >= 1,
    ensures
        total_request_count(eff, ceiling, width) * planned_page_size(eff, ceiling) >= eff,
        eff > 0 ==> (total_request_count(eff, ceiling, width) - 1) * ceiling < eff,
{
    if eff == 0 {
        assert(0 * width == 0) by (nonlinear_arith);
        assert(total_request_count(eff, ceiling, width) == 0);
        assert(0 * planned_page_size(eff, ceiling) == 0) by (nonlinear_arith);
    } else if eff <= ceiling {
        assert(0 * width == 0) by (nonlinear_arith);
        assert(total_request_count(eff, ceiling, width) == 1);
        assert(1 * planned_page_size(eff, ceiling) == planned_page_size(eff, ceiling))
            by (nonlinear_arith);
        assert(0 * ceiling == 0) by (nonlinear_arith);
        assert((total_request_count(eff, ceiling, width) - 1) * ceiling == 0);
    } else {
        let sc = ceiling * width;
        assert(ceiling * width >= 1) by (nonlinear_arith)
            requires
                ceiling >= 1,
                width >= 1,
        ;
        let f = eff / sc;
        let r = eff % sc;
        let q = (r + ceiling - 1) / ceiling;
        let t = f * width + q;
        lemma_fundamental_div_mod(eff, sc);
        lemma_mod_division_less_than_divisor(eff, sc);
        lemma_fundamental_div_mod(r + ceiling - 1, ceiling);
        lemma_mod_division_less_than_divisor(r + ceiling - 1, ceiling);
        assert(r <= ceiling * q <= r + ceiling - 1);
        assert(ceiling * (f * width) == sc * f) by (nonlinear_arith)
            requires
                sc == ceiling * width,
        ;
        assert(ceiling * t == ceiling * (f * width) + ceiling * q) by (nonlinear_arith)
            requires
                t == f * width + q,
        ;
        assert(eff <= ceiling * t <= eff + ceiling - 1);
        assert(t * ceiling >= eff) by (nonlinear_arith)
            requires
                (ceiling * t) >= eff,
        ;
        assert((t - 1) * ceiling == ceiling * t - ceiling) by (nonlinear_arith);
        assert((t - 1) * ceiling < eff);
        assert(total_request_count(eff, ceiling, width) == t);
    }
}

/// The plan never issues more page requests than the effective limit has
/// items, and never more batches than requests.
pub proof fn lemma_plan_counts_bounded(eff: int, ceiling: int, width: int)
    requires
        0 <= eff,
        ceiling >= 1,
        width >= 1,
    ensures
        0 <= full_batch_count(eff, ceiling, width),
        0 <= remainder_request_count(eff, ceiling, width),
        total_request_count(eff, ceiling, width) <= eff,
        full_batch_count(eff, ceiling, width) + (
        if remainder_request_count(eff, ceiling, width) > 0 {
            1int
        } else {
            0int
        }) <= total_request_count(eff, ceiling, width),
{
    if eff == 0 {
    } else if eff <= ceiling {
    } else {
        let sc = ceiling * width;
        assert(ceiling * width >= 1) by (nonlinear_arith)
            requires
                ceiling >= 1,
                width >= 1,
        ;
        let f = eff / sc;
        let r = eff % sc;
        let q = (r + ceiling - 1) / ceiling;
        let t = f * width + q;
        lemma_fundamental_div_mod(eff, sc);
        lemma_mod_division_less_than_divisor(eff, sc);
        lemma_div_pos_is_pos(eff, sc);
        lemma_fundamental_div_mod(r + ceiling - 1, ceiling);
        lemma_mod_division_less_than_divisor(r + ceiling - 1, ceiling);
        lemma_div_pos_is_pos(r + ceiling - 1, ceiling);
        assert(ceiling * q <= r + ceiling - 1);
        assert(ceiling * (f * width) == sc * f) by (nonlinear_arith)
            requires
                sc == ceiling * width,
        ;
        assert(ceiling * t == ceiling * (f * width) + ceiling * q) by (nonlinear_arith)
            requires
                t == f * width + q,
        ;
        assert(ceiling * t <= eff + ceiling - 1);
        assert(t <= eff) by (nonlinear_arith)
            requires
                (ceiling * t) <= (eff + ceiling - 1),
                ceiling >= 1,
                eff >= 1,
                t >= 0,
        ;
        assert(f <= f * width) by (nonlinear_arith)
            requires
                width >= 1,
                f >= 0,
        ;
    }
}

} // verus!
