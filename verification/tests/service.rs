use link_shortener::errors::{error_response, internal_error, AppError};
use link_shortener::idgen::generate_id;
use link_shortener::routes::{
    create_link, default_cache_control_header_value, finish_redirect, get_link_statistics, health,
    redirect, resolve_outcome, update_link, RecordOutcome,
};
use link_shortener::store::{Link, LinkStore, LinkTarget};
use link_shortener::urls::validate_and_normalize;

const CACHE_CONTROL: &str =
    "public, max-age=300, s-maxage=300, stale-while-revalidate=300, stale-if-error=300";

fn target(url: &str) -> LinkTarget {
    LinkTarget { target_url: url.to_string() }
}

#[test]
fn normalize_keeps_a_path() {
    let r = validate_and_normalize("https://example.com/a").unwrap();
    assert_eq!(r, "https://example.com/a");
}

#[test]
fn normalize_adds_the_root_slash() {
    // A host-only URL gains its trailing slash from normalization, so the
    // parser demonstrably rewrites its input.
    let r = validate_and_normalize("https://example.com").unwrap();
    assert_eq!(r, "https://example.com/");
}

#[test]
fn normalize_rejects_a_malformed_string() {
    assert_eq!(validate_and_normalize("not a url"), Err(AppError::Validation));
    assert_eq!(validate_and_normalize(""), Err(AppError::Validation));
    assert_eq!(validate_and_normalize("example.com/no-scheme"), Err(AppError::Validation));
}

#[test]
fn generated_id_is_short_and_url_safe() {
    for _ in 0..100 {
        let id = generate_id();
        assert!(id.len() >= 2 && id.len() <= 14, "unexpected id length: {}", id.len());
        assert!(id
            .chars()
            .all(|c| c.is_ascii_alphanumeric() || c == '-' || c == '_'));
    }
}

#[test]
fn generated_id_encodes_a_decimal_number() {
    // The identifier is the base64url encoding (no padding) of the decimal
    // text of a value below u32::MAX: decoding it must give that text back.
    let id = generate_id();
    let decoded = base64::Engine::decode(&base64::engine::general_purpose::URL_SAFE_NO_PAD, &id)
        .expect("id must be valid base64url");
    let text = String::from_utf8(decoded).expect("decoded id must be text");
    let n: u64 = text.parse().expect("decoded id must be decimal");
    assert!(n < u32::MAX as u64);
    assert_ne!(id, text, "the encoding must rewrite the digits");
}

#[test]
fn create_then_fetch_returns_the_normalized_url() {
    let mut store = LinkStore::new();
    let created = create_link(&mut store, &target("https://example.com/a")).unwrap();
    assert_eq!(created.target_url, "https://example.com/a");
    let fetched = store.fetch(&created.id).unwrap();
    assert_eq!(fetched.id, created.id);
    assert_eq!(fetched.target_url, "https://example.com/a");
}

#[test]
fn create_normalizes_before_storing() {
    let mut store = LinkStore::new();
    let created = create_link(&mut store, &target("HTTPS://EXAMPLE.COM")).unwrap();
    assert_eq!(created.target_url, "https://example.com/");
    let fetched = store.fetch(&created.id).unwrap();
    assert_eq!(fetched.target_url, "https://example.com/");
}

#[test]
fn create_rejects_a_malformed_url_without_side_effect() {
    let mut store = LinkStore::new();
    let r = create_link(&mut store, &target("not a url"));
    assert_eq!(r.unwrap_err(), AppError::Validation);
    // no row was persisted: whatever id is probed, nothing is found
    assert_eq!(store.fetch(&"anything".to_string()).unwrap_err(), AppError::NotFound);
}

#[test]
fn fetch_unknown_id_is_not_found() {
    let mut store = LinkStore::new();
    create_link(&mut store, &target("https://example.com/a")).unwrap();
    let r = store.fetch(&"missing".to_string());
    assert_eq!(r.unwrap_err(), AppError::NotFound);
}

#[test]
fn update_replaces_the_target() {
    let mut store = LinkStore::new();
    let created = create_link(&mut store, &target("https://example.com/a")).unwrap();
    let updated = update_link(&mut store, &created.id, &target("https://example.org/b")).unwrap();
    assert_eq!(updated.id, created.id);
    assert_eq!(updated.target_url, "https://example.org/b");
    let fetched = store.fetch(&created.id).unwrap();
    assert_eq!(fetched.target_url, "https://example.org/b");
}

#[test]
fn update_is_idempotent_under_repetition() {
    let mut store = LinkStore::new();
    let created = create_link(&mut store, &target("https://example.com/a")).unwrap();
    let first = update_link(&mut store, &created.id, &target("https://example.org/b")).unwrap();
    let second = update_link(&mut store, &created.id, &target("https://example.org/b"))
        .expect("the second update must not error");
    assert_eq!(first.target_url, second.target_url);
    let fetched = store.fetch(&created.id).unwrap();
    assert_eq!(fetched.target_url, "https://example.org/b");
}

#[test]
fn update_rejects_a_malformed_url_without_side_effect() {
    let mut store = LinkStore::new();
    let created = create_link(&mut store, &target("https://example.com/a")).unwrap();
    let r = update_link(&mut store, &created.id, &target("not a url"));
    assert_eq!(r.unwrap_err(), AppError::Validation);
    let fetched = store.fetch(&created.id).unwrap();
    assert_eq!(fetched.target_url, "https://example.com/a");
}

#[test]
fn update_of_an_unknown_id_is_not_found() {
    let mut store = LinkStore::new();
    let r = update_link(&mut store, &"missing".to_string(), &target("https://example.com/a"));
    assert_eq!(r.unwrap_err(), AppError::NotFound);
}

#[test]
fn redirect_serves_307_with_the_stored_target() {
    let mut store = LinkStore::new();
    let created = create_link(&mut store, &target("https://example.com/a")).unwrap();
    let resp = redirect(
        &mut store,
        &created.id,
        Some("https://referrer.example".to_string()),
        Some("agent/1.0".to_string()),
    )
    .unwrap();
    assert_eq!(resp.status, 307);
    assert_eq!(resp.location, "https://example.com/a");
    assert_eq!(resp.cache_control, CACHE_CONTROL);
}

#[test]
fn redirect_of_an_unknown_id_is_not_found_and_records_nothing() {
    let mut store = LinkStore::new();
    let r = redirect(&mut store, &"missing".to_string(), None, None);
    assert_eq!(r.unwrap_err(), AppError::NotFound);
    assert!(get_link_statistics(&store, &"missing".to_string()).is_empty());
}

#[test]
fn redirect_records_one_click() {
    let mut store = LinkStore::new();
    let created = create_link(&mut store, &target("https://example.com/a")).unwrap();
    redirect(&mut store, &created.id, Some("r".to_string()), Some("u".to_string())).unwrap();
    let stats = get_link_statistics(&store, &created.id);
    assert_eq!(stats.len(), 1);
    assert_eq!(stats[0].amount, Some(1));
    assert_eq!(stats[0].referer.as_deref(), Some("r"));
    assert_eq!(stats[0].user_agent.as_deref(), Some("u"));
}

#[test]
fn response_does_not_depend_on_the_recording_outcome() {
    let link = Link { id: "abc".to_string(), target_url: "https://example.com/a".to_string() };
    let ok = finish_redirect(&link, RecordOutcome::Persisted);
    let slow = finish_redirect(&link, RecordOutcome::TimedOut);
    let broken = finish_redirect(&link, RecordOutcome::Failed);
    for resp in [&ok, &slow, &broken] {
        assert_eq!(resp.status, 307);
        assert_eq!(resp.location, "https://example.com/a");
        assert_eq!(resp.cache_control, CACHE_CONTROL);
    }
}

#[test]
fn resolve_outcome_maps_the_lookup_result() {
    let link = Link { id: "abc".to_string(), target_url: "https://example.com/".to_string() };
    assert_eq!(resolve_outcome(Ok(Some(link))).unwrap().id, "abc");
    assert_eq!(resolve_outcome(Ok(None)).unwrap_err(), AppError::NotFound);
    assert_eq!(resolve_outcome(Err(AppError::Timeout)).unwrap_err(), AppError::Timeout);
    assert_eq!(resolve_outcome(Err(AppError::Backend)).unwrap_err(), AppError::Backend);
}

#[test]
fn record_then_aggregate_counts_the_exact_group() {
    let mut store = LinkStore::new();
    let created = create_link(&mut store, &target("https://example.com/a")).unwrap();
    store.record(&created.id, Some("r".to_string()), Some("u".to_string()));
    let before = get_link_statistics(&store, &created.id);
    assert_eq!(before.len(), 1);
    assert_eq!(before[0].amount, Some(1));
    store.record(&created.id, Some("r".to_string()), Some("u".to_string()));
    let after = get_link_statistics(&store, &created.id);
    assert_eq!(after.len(), 1);
    assert_eq!(after[0].amount, Some(2));
}

#[test]
fn two_user_agents_give_two_groups_summing_to_two() {
    let mut store = LinkStore::new();
    let created = create_link(&mut store, &target("https://example.com/a")).unwrap();
    redirect(&mut store, &created.id, None, Some("agent-one".to_string())).unwrap();
    redirect(&mut store, &created.id, None, Some("agent-two".to_string())).unwrap();
    let stats = get_link_statistics(&store, &created.id);
    assert_eq!(stats.len(), 2);
    let total: i64 = stats.iter().map(|s| s.amount.unwrap()).sum();
    assert_eq!(total, 2);
}

#[test]
fn aggregation_groups_by_referer_and_user_agent() {
    let mut store = LinkStore::new();
    let id = "link1".to_string();
    store.record(&id, Some("r1".to_string()), Some("u1".to_string()));
    store.record(&id, Some("r1".to_string()), Some("u1".to_string()));
    store.record(&id, Some("r1".to_string()), Some("u2".to_string()));
    store.record(&id, None, None);
    store.record(&"other".to_string(), Some("r1".to_string()), Some("u1".to_string()));
    let stats = get_link_statistics(&store, &id);
    assert_eq!(stats.len(), 3);
    let find = |r: Option<&str>, u: Option<&str>| {
        stats
            .iter()
            .find(|s| s.referer.as_deref() == r && s.user_agent.as_deref() == u)
            .map(|s| s.amount)
    };
    assert_eq!(find(Some("r1"), Some("u1")), Some(Some(2)));
    assert_eq!(find(Some("r1"), Some("u2")), Some(Some(1)));
    assert_eq!(find(None, None), Some(Some(1)));
}

#[test]
fn aggregation_of_an_unknown_link_is_empty() {
    let store = LinkStore::new();
    assert!(get_link_statistics(&store, &"missing".to_string()).is_empty());
}

#[test]
fn error_responses_carry_the_documented_status_codes() {
    assert_eq!(error_response(&AppError::Validation), (409, "url malformed".to_string()));
    assert_eq!(error_response(&AppError::NotFound), (404, "Not Found".to_string()));
    assert_eq!(error_response(&AppError::Timeout).0, 500);
    assert_eq!(error_response(&AppError::Backend).0, 500);
}

#[test]
fn internal_errors_always_map_to_500() {
    assert_eq!(internal_error(&AppError::Timeout), (500, "deadline has elapsed".to_string()));
    assert_eq!(internal_error(&AppError::Backend), (500, "backend error".to_string()));
}

#[test]
fn health_is_always_ok() {
    let (status, body) = health();
    assert_eq!(status, 200);
    assert_eq!(body, "Serice is healthy!");
}

#[test]
fn cache_control_value_matches_the_policy() {
    assert_eq!(default_cache_control_header_value(), CACHE_CONTROL);
}
