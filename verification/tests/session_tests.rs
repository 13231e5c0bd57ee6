use lastfm_bulk::plan::RemoteMethod;
use lastfm_bulk::session::{PageResult, RetrievalSession, SessionState};

fn page(items: Vec<u32>) -> PageResult<u32> {
    PageResult { total_available: 0, items }
}

#[test]
fn full_flow_delivers_effective_limit_in_order() {
    // requested 12, ceiling 5, width 2: effective 12, super chunk 10,
    // one full batch of 2 requests, remainder 2 gives 1 more request.
    let mut s: RetrievalSession<u32> = RetrievalSession::new(
        RemoteMethod::LovedTracks,
        Some(12),
        5,
        2,
    );
    assert_eq!(s.state, SessionState::AwaitingProbe);
    let probe = s.probe_request();
    assert_eq!(probe.page_index, 1);
    assert_eq!(probe.page_size, 1);
    s.on_probe(100);
    assert_eq!(s.state, SessionState::Fetching);
    assert_eq!(s.effective, 12);

    let b0 = s.current_batch();
    assert_eq!(b0.len(), 2);
    assert_eq!(b0[0].page_index, 1);
    assert_eq!(b0[1].page_index, 2);
    s.on_batch_success(vec![page(vec![0, 1, 2, 3, 4]), page(vec![5, 6, 7, 8, 9])]);
    assert_eq!(s.state, SessionState::Fetching);

    let b1 = s.current_batch();
    assert_eq!(b1.len(), 1);
    assert_eq!(b1[0].page_index, 3);
    s.on_batch_success(vec![page(vec![10, 11, 12, 13, 14])]);
    assert_eq!(s.state, SessionState::Done);

    let out = s.try_output().expect("finished retrieval delivers");
    assert_eq!(out, (0..12).collect::<Vec<u32>>());
}

#[test]
fn scenario_twelve_thousand_over_twelve_requests() {
    // requested = total = 12000, ceiling 1000, width 5: 2 full batches of
    // 5 requests, then 2 remainder requests; 12 fetches and 12000 items.
    let mut s: RetrievalSession<u32> = RetrievalSession::new(
        RemoteMethod::RecentTracks,
        Some(12000),
        1000,
        5,
    );
    s.on_probe(12000);
    let mut fetched: u32 = 0;
    let mut batches: usize = 0;
    let mut next_item: u32 = 0;
    while s.state == SessionState::Fetching {
        let batch = s.current_batch();
        let mut results: Vec<PageResult<u32>> = Vec::new();
        for req in &batch {
            fetched += 1;
            assert_eq!(req.page_index, fetched);
            assert_eq!(req.page_size, 1000);
            let items: Vec<u32> = (next_item..next_item + 1000).collect();
            next_item += 1000;
            results.push(page(items));
        }
        s.on_batch_success(results);
        batches += 1;
    }
    assert_eq!(fetched, 12);
    assert_eq!(batches, 3);
    let out = s.try_output().expect("finished retrieval delivers");
    assert_eq!(out.len(), 12000);
    assert_eq!(out, (0..12000).collect::<Vec<u32>>());
}

#[test]
fn output_order_follows_request_order() {
    // Pages handed over indexed by request keep that order in the output,
    // whatever order their fetches completed in.
    let mut s: RetrievalSession<u32> = RetrievalSession::new(
        RemoteMethod::RecentTracks,
        Some(6),
        2,
        3,
    );
    s.on_probe(6);
    let batch = s.current_batch();
    assert_eq!(batch.len(), 3);
    // Imagine the third fetch finished first: the executor still slots
    // each page at its request index before handing the batch over.
    let mut slots: Vec<Option<Vec<u32>>> = vec![None, None, None];
    for completion in [2usize, 0, 1] {
        let items = vec![(completion as u32) * 2, (completion as u32) * 2 + 1];
        slots[completion] = Some(items);
    }
    let results: Vec<PageResult<u32>> =
        slots.into_iter().map(|p| page(p.unwrap())).collect();
    s.on_batch_success(results);
    let out = s.try_output().expect("finished retrieval delivers");
    assert_eq!(out, vec![0, 1, 2, 3, 4, 5]);
}

#[test]
fn failed_batch_delivers_nothing() {
    let mut s: RetrievalSession<u32> = RetrievalSession::new(
        RemoteMethod::LovedTracks,
        Some(12),
        5,
        2,
    );
    s.on_probe(100);
    let _ = s.current_batch();
    s.on_batch_success(vec![page(vec![0, 1, 2, 3, 4]), page(vec![5, 6, 7, 8, 9])]);
    s.on_batch_failure();
    assert_eq!(s.state, SessionState::Failed);
    assert!(s.try_output().is_none());
}

#[test]
fn one_available_item_yields_one() {
    // total_available = 1, requested_limit = 50: one batch, one request,
    // output of length 1.
    let mut s: RetrievalSession<u32> = RetrievalSession::new(
        RemoteMethod::LovedTracks,
        Some(50),
        1000,
        5,
    );
    s.on_probe(1);
    assert_eq!(s.state, SessionState::Fetching);
    let batch = s.current_batch();
    assert_eq!(batch.len(), 1);
    assert_eq!(batch[0].page_size, 1);
    s.on_batch_success(vec![page(vec![7])]);
    assert_eq!(s.state, SessionState::Done);
    let out = s.try_output().expect("finished retrieval delivers");
    assert_eq!(out, vec![7]);
}

#[test]
fn zero_requested_probes_then_delivers_empty() {
    // The probe still happens; the plan is empty and the result is an
    // empty list, with no error.
    let mut s: RetrievalSession<u32> = RetrievalSession::new(
        RemoteMethod::RecentTracks,
        Some(0),
        1000,
        5,
    );
    let probe = s.probe_request();
    assert_eq!(probe.page_size, 1);
    s.on_probe(12345);
    assert_eq!(s.state, SessionState::Done);
    let out = s.try_output().expect("empty retrieval still delivers");
    assert!(out.is_empty());
}

#[test]
fn absent_limit_defaults_to_page_ceiling() {
    let s: RetrievalSession<u32> = RetrievalSession::new(
        RemoteMethod::RecentTracks,
        None,
        1000,
        5,
    );
    assert_eq!(s.requested_limit, 1000);
}

#[test]
fn overfetched_slack_is_trimmed() {
    // Effective 7 with ceiling 3 plans ceiling-sized pages (9 items of
    // capacity); the two extra items are trimmed at delivery.
    let mut s: RetrievalSession<u32> = RetrievalSession::new(
        RemoteMethod::LovedTracks,
        Some(7),
        3,
        1,
    );
    s.on_probe(100);
    s.on_batch_success(vec![page(vec![0, 1, 2])]);
    s.on_batch_success(vec![page(vec![3, 4, 5])]);
    s.on_batch_success(vec![page(vec![6, 7, 8])]);
    assert_eq!(s.state, SessionState::Done);
    let out = s.try_output().expect("finished retrieval delivers");
    assert_eq!(out, vec![0, 1, 2, 3, 4, 5, 6]);
}
