use crate::assemble::truncated;
use crate::plan::{
    effective_limit, lemma_plan_counts_bounded, plan, plan_matches, PageRequest, RemoteMethod,
    RetrievalPlan,
};
use vstd::prelude::*;

verus! {

/// Where one retrieval stands: waiting for the probe's total, fetching
/// planned batches, finished with every batch, or aborted on a failed
/// fetch.
#[derive(Clone, Copy, PartialEq, Eq, Structural, Debug)]
pub enum SessionState {
    AwaitingProbe,
    Fetching,
    Done,
    Failed,
}

/// One decoded page of the remote response: the total item count the
/// source reports (meaningful on the probe page, ignored elsewhere) and
/// the page's items in remote-assigned order.
pub struct PageResult<Item> {
    pub total_available: u32,
    pub items: Vec<Item>,
}

/// The item sequences of a batch of page results, in request order.
pub open spec fn result_pages<Item>(rs: Seq<PageResult<Item>>) -> Seq<Seq<Item>> {
    rs.map_values(|r: PageResult<Item>| r.items@)
}

/// The items of a batch of page results, concatenated in request order.
pub open spec fn results_items<Item>(rs: Seq<PageResult<Item>>) -> Seq<Item> {
    result_pages(rs).flatten()
}

/// The bulk-retrieval engine for one call, as an explicit state machine:
/// the transport layer outside the verified core performs one fetch at a
/// time and hands the decoded outcome back, while every decision — what to
/// probe, which batch to fetch next, when to stop, what to deliver — is
/// taken here.  Batches run strictly one after another; a failed fetch
/// aborts the whole retrieval with nothing delivered.
pub struct RetrievalSession<Item> {
    pub method: RemoteMethod,
    pub requested_limit: u32,
    pub page_ceiling: u32,
    pub batch_width: u32,
    pub plan: RetrievalPlan,
    pub batches_done: usize,
    pub collected: Vec<Item>,
    pub effective: u32,
    pub state: SessionState,
}

impl<Item> RetrievalSession<Item> {
    /// Number of batches the plan holds.
    pub open spec fn batch_total(self) -> int {
        self.plan.full_batches@.len() + if self.plan.remainder_batch@.len() > 0 {
            1int
        } else {
            0int
        }
    }

    /// The requests of batch `b` (0-based): the full batches in order,
    /// then the remainder batch.
    pub open spec fn batch_at(self, b: int) -> Seq<PageRequest> {
        if b < self.plan.full_batches@.len() {
            self.plan.full_batches@[b]@
        } else {
            self.plan.remainder_batch@
        }
    }

    /// Internal invariant: the paging parameters are usable, and from the
    /// probe onwards the stored plan is exactly the planner's plan for the
    /// effective limit, with batch progress inside bounds.
    pub open spec fn wf(self) -> bool {
        &&& self.page_ceiling >= 1
        &&& self.batch_width >= 1
        &&& self.page_ceiling * self.batch_width <= u32::MAX
        &&& (self.state == SessionState::AwaitingProbe ==> {
            &&& self.batches_done == 0
            &&& self.collected@.len() == 0
            &&& self.plan.full_batches@.len() == 0
            &&& self.plan.remainder_batch@.len() == 0
        })
        &&& (self.state != SessionState::AwaitingProbe ==> {
            &&& self.effective <= self.requested_limit
            &&& plan_matches(
                self.plan,
                self.method,
                self.effective as int,
                self.page_ceiling as int,
                self.batch_width as int,
            )
            &&& self.batch_total() <= u32::MAX
            &&& self.batches_done <= self.batch_total()
        })
        &&& (self.state == SessionState::Fetching ==> self.batches_done < self.batch_total())
        &&& (self.state == SessionState::Done ==> self.batches_done == self.batch_total())
    }

    /// Open a session.  An absent requested limit resolves to the page
    /// ceiling: one default page's worth of items.
    pub fn new(
        method: RemoteMethod,
        requested_limit: Option<u32>,
        page_ceiling: u32,
        batch_width: u32,
    ) -> (s: Self)
        requires
            page_ceiling >= 1,
            batch_width >= 1,
            page_ceiling * batch_width <= u32::MAX,
        ensures
            s.wf(),
            s.state == SessionState::AwaitingProbe,
            s.method == method,
            s.page_ceiling == page_ceiling,
            s.batch_width == batch_width,
            s.requested_limit == (match requested_limit {
                Option::Some(l) => l,
                Option::None => page_ceiling,
            }),
            s.collected@.len() == 0,
    {
        let limit: u32 = match requested_limit {
            Option::Some(l) => l,
            Option::None => page_ceiling,
        };
        RetrievalSession {
            method,
            requested_limit: limit,
            page_ceiling,
            batch_width,
            plan: RetrievalPlan { full_batches: Vec::new(), remainder_batch: Vec::new() },
            batches_done: 0,
            collected: Vec::new(),
            effective: 0,
            state: SessionState::AwaitingProbe,
        }
    }

    /// The initial probe: ask the remote method for exactly one item, so
    /// the response reveals the total available count.
    pub fn probe_request(&self) -> (r: PageRequest)
        requires
            self.state == SessionState::AwaitingProbe,
        ensures
            r.method == self.method,
            r.page_index == 1,
            r.page_size == 1,
    {
        PageRequest { method: self.method, page_index: 1, page_size: 1 }
    }

    /// Record the probed total and compute the retrieval plan.  The
    /// session moves to fetching, or straight to done when there is
    /// nothing to fetch (a zero effective limit still probes, then
    /// delivers an empty result without error).
    pub fn on_probe(&mut self, total_available: u32)
        requires
            old(self).wf(),
            old(self).state == SessionState::AwaitingProbe,
        ensures
            final(self).wf(),
            final(self).method == old(self).method,
            final(self).requested_limit == old(self).requested_limit,
            final(self).page_ceiling == old(self).page_ceiling,
            final(self).batch_width == old(self).batch_width,
            final(self).collected@.len() == 0,
            final(self).batches_done == 0,
            final(self).effective as int == effective_limit(
                old(self).requested_limit,
                total_available,
            ),
            plan_matches(
                final(self).plan,
                final(self).method,
                final(self).effective as int,
                final(self).page_ceiling as int,
                final(self).batch_width as int,
            ),
            final(self).state == (if final(self).batch_total() == 0 {
                SessionState::Done
            } else {
                SessionState::Fetching
            }),
    {
        let eff: u32 = if self.requested_limit <= total_available {
            self.requested_limit
        } else {
            total_available
        };
        self.effective = eff;
        self.plan = plan(
            self.method,
            self.requested_limit,
            total_available,
            self.page_ceiling,
            self.batch_width,
        );
        proof {
            lemma_plan_counts_bounded(
                eff as int,
                self.page_ceiling as int,
                self.batch_width as int,
            );
        }
        if self.plan.full_batches.len() == 0 && self.plan.remainder_batch.len() == 0 {
            self.state = SessionState::Done;
        } else {
            self.state = SessionState::Fetching;
        }
    }

    /// The batch to fetch next, copied out so the transport layer can
    /// consume it while the session keeps the plan.
    pub fn current_batch(&self) -> (b: Vec<PageRequest>)
        requires
            self.wf(),
            self.state == SessionState::Fetching,
        ensures
            b@ == self.batch_at(self.batches_done as int),
    {
        if self.batches_done < self.plan.full_batches.len() {
            copy_requests(&self.plan.full_batches[self.batches_done])
        } else {
            copy_requests(&self.plan.remainder_batch)
        }
    }

    /// Record one batch's decoded pages, handed over in request order.
    /// Output order is fixed here by request position alone: however the
    /// concurrent fetches interleaved in time, their pages arrive indexed
    /// by request and are appended in that order.
    #[verifier::loop_isolation(false)]
    pub fn on_batch_success(&mut self, results: Vec<PageResult<Item>>)
        requires
            old(self).wf(),
            old(self).state == SessionState::Fetching,
        ensures
            final(self).wf(),
            final(self).method == old(self).method,
            final(self).requested_limit == old(self).requested_limit,
            final(self).page_ceiling == old(self).page_ceiling,
            final(self).batch_width == old(self).batch_width,
            final(self).effective == old(self).effective,
            final(self).plan == old(self).plan,
            final(self).collected@ == old(self).collected@ + results_items(results@),
            final(self).batches_done == old(self).batches_done + 1,
            final(self).state == (if final(self).batches_done == final(self).batch_total() {
                SessionState::Done
            } else {
                SessionState::Fetching
            }),
    {
        let ghost all = result_pages(results@);
        let mut results = results;
        proof {
            assert(result_pages(results@) =~= all.subrange(0, all.len() as int));
        }
        while results.len() > 0
            invariant
                results@.len() <= all.len(),
                result_pages(results@) == all.subrange(
                    all.len() - results@.len(),
                    all.len() as int,
                ),
                self.collected@ == old(self).collected@ + all.subrange(
                    0,
                    all.len() - results@.len(),
                ).flatten(),
                self.method == old(self).method,
                self.requested_limit == old(self).requested_limit,
                self.page_ceiling == old(self).page_ceiling,
                self.batch_width == old(self).batch_width,
                self.effective == old(self).effective,
                self.plan == old(self).plan,
                self.batches_done == old(self).batches_done,
                self.state == old(self).state,
            decreases results@.len(),
        {
            let ghost k = all.len() - results@.len();
            let ghost pre = results@;
            let r = results.remove(0);
            let mut items = r.items;
            proof {
                assert(items@ == result_pages(pre)[0]);
                assert(items@ == all[k]);
                assert(all.subrange(0, k + 1) =~= all.subrange(0, k).push(all[k]));
                all.subrange(0, k).lemma_flatten_push(all[k]);
                assert forall|m: int| 0 <= m < results@.len() implies result_pages(results@)[m]
                    == all[k + 1 + m] by {
                    assert(results@[m] == pre[m + 1]);
                    assert(result_pages(pre)[m + 1] == all.subrange(
                        k,
                        all.len() as int,
                    )[m + 1]);
                }
                assert(result_pages(results@) =~= all.subrange(k + 1, all.len() as int));
            }
            self.collected.append(&mut items);
        }
        proof {
            assert(all.subrange(0, all.len() as int) =~= all);
        }
        self.batches_done = self.batches_done + 1;
        let finished: bool = if self.batches_done > self.plan.full_batches.len() {
            true
        } else {
            self.batches_done == self.plan.full_batches.len()
                && self.plan.remainder_batch.len() == 0
        };
        if finished {
            self.state = SessionState::Done;
        } else {
            self.state = SessionState::Fetching;
        }
    }

    /// Abort the retrieval: a fetch of the current batch failed.  The
    /// whole call fails and nothing will be delivered.
    pub fn on_batch_failure(&mut self)
        requires
            old(self).wf(),
            old(self).state == SessionState::Fetching,
        ensures
            final(self).wf(),
            final(self).state == SessionState::Failed,
            final(self).method == old(self).method,
            final(self).requested_limit == old(self).requested_limit,
            final(self).page_ceiling == old(self).page_ceiling,
            final(self).batch_width == old(self).batch_width,
            final(self).effective == old(self).effective,
            final(self).plan == old(self).plan,
            final(self).collected@ == old(self).collected@,
            final(self).batches_done == old(self).batches_done,
    {
        self.state = SessionState::Failed;
    }

    /// Deliver the assembled result: the collected items, in request
    /// order, truncated to the effective limit.  All-or-nothing: a
    /// session that failed, or that still has batches to run, yields
    /// nothing.
    pub fn try_output(self) -> (r: Option<Vec<Item>>)
        requires
            self.wf(),
        ensures
            r is Some <==> self.state == SessionState::Done,
            self.state == SessionState::Done ==> r->0@ == truncated(
                self.collected@,
                self.effective as int,
            ),
    {
        if self.state == SessionState::Done {
            let mut out = self.collected;
            if (self.effective as usize) < out.len() {
                out.truncate(self.effective as usize);
            }
            Option::Some(out)
        } else {
            Option::None
        }
    }
}

/// Copy a batch of requests, element by element.
fn copy_requests(src: &Vec<PageRequest>) -> (r: Vec<PageRequest>)
    ensures
        r@ == src@,
{
    let mut r: Vec<PageRequest> = Vec::new();
    let mut i: usize = 0;
    while i < src.len()
        invariant
            i <= src@.len(),
            r@ == src@.take(i as int),
        decreases src@.len() - i,
    {
        proof {
            assert(src@.take(i as int + 1) =~= src@.take(i as int).push(src@[i as int]));
        }
        r.push(src[i]);
        i = i + 1;
    }
    proof {
        assert(src@.take(src@.len() as int) =~= src@);
    }
    r
}

} // verus!
