use lastfm_bulk::handler::{LastFMHandler, API_MAX_LIMIT, CHUNK_MULTIPLIER};
use lastfm_bulk::plan::RemoteMethod;
use lastfm_bulk::session::{RetrievalSession, SessionState};

#[test]
fn handler_holds_explicit_configuration() {
    let h = LastFMHandler::new(
        "https://ws.audioscrobbler.com/2.0/".to_string(),
        "demo-api-key".to_string(),
        "tom".to_string(),
    );
    assert_eq!(h.base_url, "https://ws.audioscrobbler.com/2.0/");
    assert_eq!(h.api_key, "demo-api-key");
    assert_eq!(h.username, "tom");
    assert_eq!(h.page_ceiling, API_MAX_LIMIT);
    assert_eq!(h.batch_width, CHUNK_MULTIPLIER);
    assert_eq!(h.page_ceiling, 1000);
    assert_eq!(h.batch_width, 5);
}

#[test]
fn started_session_awaits_probe_with_handler_paging() {
    let h = LastFMHandler::new(
        "https://ws.audioscrobbler.com/2.0/".to_string(),
        "demo-api-key".to_string(),
        "tom".to_string(),
    );
    let s: RetrievalSession<String> = h.start_session(RemoteMethod::RecentTracks, Some(42));
    assert_eq!(s.state, SessionState::AwaitingProbe);
    assert_eq!(s.requested_limit, 42);
    assert_eq!(s.page_ceiling, 1000);
    assert_eq!(s.batch_width, 5);
    let s2: RetrievalSession<String> = h.start_session(RemoteMethod::LovedTracks, None);
    assert_eq!(s2.requested_limit, 1000);
}
