use crate::plan::RemoteMethod;
use crate::session::{RetrievalSession, SessionState};
use vstd::prelude::*;

verus! {

/// Hard per-request page-size ceiling of the remote source.
pub const API_MAX_LIMIT: u32 = 1000;

/// How many page requests one batch issues concurrently.
pub const CHUNK_MULTIPLIER: u32 = 5;

/// Read-only configuration for one remote account: what the transport
/// layer needs to address the source, and the paging shape the planner
/// works with.  Copied unchanged into every request of a retrieval; no
/// retrieval mutates it, so concurrent fetches share it safely.
pub struct LastFMHandler {
    pub base_url: String,
    pub api_key: String,
    pub username: String,
    pub page_ceiling: u32,
    pub batch_width: u32,
}

impl LastFMHandler {
    /// Paging parameters that make sessions startable.
    pub open spec fn wf(self) -> bool {
        &&& self.page_ceiling >= 1
        &&& self.batch_width >= 1
        &&& self.page_ceiling * self.batch_width <= u32::MAX
    }

    /// Build a handler for one account with the default paging shape.
    /// Configuration is explicit: the caller supplies the endpoint, the
    /// credential and the account name as plain values.
    pub fn new(base_url: String, api_key: String, username: String) -> (h: Self)
        ensures
            h.wf(),
            h.base_url@ == base_url@,
            h.api_key@ == api_key@,
            h.username@ == username@,
            h.page_ceiling == API_MAX_LIMIT,
            h.batch_width == CHUNK_MULTIPLIER,
    {
        LastFMHandler {
            base_url,
            api_key,
            username,
            page_ceiling: API_MAX_LIMIT,
            batch_width: CHUNK_MULTIPLIER,
        }
    }

    /// Open a retrieval session for one remote method.  `Item` is the
    /// decoded per-track shape of that method's responses; the session
    /// only carries such values, so one engine serves every method.
    pub fn start_session<Item>(&self, method: RemoteMethod, requested_limit: Option<u32>) -> (s:
        RetrievalSession<Item>)
        requires
            self.wf(),
        ensures
            s.wf(),
            s.state == SessionState::AwaitingProbe,
            s.method == method,
            s.page_ceiling == self.page_ceiling,
            s.batch_width == self.batch_width,
            s.requested_limit == (match requested_limit {
                Option::Some(l) => l,
                Option::None => self.page_ceiling,
            }),
            s.collected@.len() == 0,
    {
        RetrievalSession::new(method, requested_limit, self.page_ceiling, self.batch_width)
    }
}

} // verus!
