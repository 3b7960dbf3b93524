use ytmusic_browse::instance::YoutubeMusicInstance;
use ytmusic_browse::library::LibraryFetch;
use ytmusic_browse::types::Continuation;

fn page_with(browse_id: &str, token: &str) -> String {
    format!(
        "{{\"list\":{{\"browseId\":\"{}\",\"title\":\"T {}\",\"subtitle\":\"s\"}},\"next\":{{\"continuation\":\"{}\",\"clickTrackingParams\":\"ct\"}}}}",
        browse_id, browse_id, token
    )
}

/// Drives the aggregation against a synthetic server whose every page
/// returns a fresh continuation token; counts the continuation requests.
fn run_chain(budget: usize) -> (usize, Vec<String>) {
    let first = page_with("L0", "tok0");
    let (json, conts) = YoutubeMusicInstance::browse(&first, budget > 0).unwrap();
    let mut state = LibraryFetch::start(&json, conts, budget);
    let mut requests = 0;
    let mut served = 0;
    while let Some((c, want_more)) = state.next_page() {
        requests += 1;
        served += 1;
        assert!(c.continuation.starts_with("tok"));
        let body = page_with(&format!("L{served}"), &format!("tok{served}"));
        let (json, conts) = YoutubeMusicInstance::browse_continuation(&body, want_more).unwrap();
        state.absorb_page(&json, conts);
    }
    assert!(state.is_done());
    let names = state.finish().into_iter().map(|p| p.browse_id).collect();
    (requests, names)
}

#[test]
fn pagination_stops_within_budget_of_two() {
    let (requests, names) = run_chain(2);
    assert!(requests <= 2);
    assert_eq!(requests, 2);
    assert_eq!(names, vec!["L0", "L1", "L2"]);
}

#[test]
fn budget_zero_means_first_page_only() {
    let (requests, names) = run_chain(0);
    assert_eq!(requests, 0);
    assert_eq!(names, vec!["L0"]);
}

#[test]
fn budget_one_fetches_one_continuation() {
    let (requests, names) = run_chain(1);
    assert_eq!(requests, 1);
    assert_eq!(names, vec!["L0", "L1"]);
}

#[test]
fn queue_is_drained_most_recent_first() {
    let json = ytmusic_browse::json::JsonValue::Null;
    let c = |t: &str| Continuation {
        continuation: t.to_string(),
        click_tracking_params: "ct".to_string(),
    };
    let mut state = LibraryFetch::start(&json, vec![c("old"), c("new")], 5);
    let (first, _) = state.next_page().unwrap();
    assert_eq!(first.continuation, "new");
    let (second, _) = state.next_page().unwrap();
    assert_eq!(second.continuation, "old");
    assert!(state.next_page().is_none());
}

#[test]
fn last_permitted_page_does_not_request_more() {
    let json = ytmusic_browse::json::JsonValue::Null;
    let c = |t: &str| Continuation {
        continuation: t.to_string(),
        click_tracking_params: "ct".to_string(),
    };
    let mut state = LibraryFetch::start(&json, vec![c("a"), c("b")], 2);
    let (_, want1) = state.next_page().unwrap();
    assert!(want1);
    let (_, want2) = state.next_page().unwrap();
    assert!(!want2);
    assert!(state.is_done());
}
