use spvc::headers::{ExtractedHeaders, RawHeader};
use spvc::pipeline::{cookie_name_bytes, log_visitor, Config, Outcome, VisitorCookie};
use spvc::store::Store;

fn fresh_store() -> Store {
    Store::new(b"UNKNOWN".to_vec(), b"UNKNOWN".to_vec(), b"UNKNOWN".to_vec())
}

fn example_config() -> Config {
    Config {
        allowed_urls: vec![b"https://example.com".to_vec()],
        save_ip: false,
        save_user_agent: false,
        save_missing_referer: false,
    }
}

fn blog_headers() -> ExtractedHeaders {
    ExtractedHeaders::from_raw(
        RawHeader::Present(b"https://example.com/blog".to_vec()),
        RawHeader::Present(b"a browser".to_vec()),
    )
}

const NOW: i64 = 1700000000;

#[test]
fn first_visit_records_and_mints_a_visitor() {
    let mut store = fresh_store();
    let config = example_config();
    let outcome = log_visitor(&mut store, &config, &blog_headers(), &b"10.0.0.9".to_vec(), &None,
        NOW);
    match &outcome {
        Outcome::Recorded { visitor_id, cookie_value } => {
            assert_eq!(*visitor_id, 2);
            assert_eq!(cookie_value, &b"2".to_vec());
        },
        Outcome::Rejected => panic!("authorized request was rejected"),
    }
    assert_eq!(outcome.status_code(), 200);
    assert_eq!(store.visitors.rows.len(), 2);
    assert_eq!(store.visitors.rows[1].first_visit, Some(NOW));
    assert_eq!(store.visits.len(), 1);
    assert_eq!(store.urls.rows[1], b"https://example.com/blog".to_vec());
    let row = store.visits[0];
    assert_eq!(row.url_id, 2);
    assert_eq!(row.visitor_id, 2);
    assert_eq!(row.user_agent_id, 1);
    assert_eq!(row.ip_id, 1);
}

#[test]
fn bad_referer_rejects_and_persists_nothing() {
    let mut store = fresh_store();
    let config = example_config();
    let headers = ExtractedHeaders::from_raw(
        RawHeader::Present(b"https://evil.com".to_vec()),
        RawHeader::Present(b"a browser".to_vec()),
    );
    let outcome = log_visitor(&mut store, &config, &headers, &b"10.0.0.9".to_vec(), &None, NOW);
    assert_eq!(outcome, Outcome::Rejected);
    assert_eq!(outcome.status_code(), 401);
    assert_eq!(store.urls.rows.len(), 1);
    assert_eq!(store.visitors.rows.len(), 1);
    assert_eq!(store.user_agents.rows.len(), 1);
    assert_eq!(store.ips.rows.len(), 1);
    assert_eq!(store.visits.len(), 0);
}

#[test]
fn returned_cookie_keeps_the_visitor_id() {
    let mut store = fresh_store();
    let config = example_config();
    let first = log_visitor(&mut store, &config, &blog_headers(), &b"10.0.0.9".to_vec(), &None,
        NOW);
    let cookie = match first {
        Outcome::Recorded { cookie_value, .. } => cookie_value,
        Outcome::Rejected => panic!("authorized request was rejected"),
    };
    let second = log_visitor(&mut store, &config, &blog_headers(), &b"10.0.0.9".to_vec(),
        &Some(cookie), NOW + 60);
    match second {
        Outcome::Recorded { visitor_id, cookie_value } => {
            assert_eq!(visitor_id, 2);
            assert_eq!(cookie_value, b"2".to_vec());
        },
        Outcome::Rejected => panic!("authorized request was rejected"),
    }
    assert_eq!(store.visitors.rows.len(), 2, "no new visitor row on a repeat visit");
    assert_eq!(store.visits.len(), 2, "a repeat visit is still one more fact row");
    assert_eq!(store.visits[1].visitor_id, 2);
}

#[test]
fn repeat_visits_are_counted() {
    let mut store = fresh_store();
    let config = example_config();
    log_visitor(&mut store, &config, &blog_headers(), &b"10.0.0.9".to_vec(), &None, NOW);
    let cookie = Some(b"2".to_vec());
    log_visitor(&mut store, &config, &blog_headers(), &b"10.0.0.9".to_vec(), &cookie, NOW);
    log_visitor(&mut store, &config, &blog_headers(), &b"10.0.0.9".to_vec(), &cookie, NOW);
    assert_eq!(store.visits.len(), 3);
    assert_eq!(store.urls.rows.len(), 2, "the url is deduplicated");
}

#[test]
fn unparsable_cookie_falls_back_to_id_one() {
    let mut store = fresh_store();
    let config = example_config();
    let outcome = log_visitor(&mut store, &config, &blog_headers(), &b"10.0.0.9".to_vec(),
        &Some(b"not a number".to_vec()), NOW);
    match outcome {
        Outcome::Recorded { visitor_id, cookie_value } => {
            assert_eq!(visitor_id, 1);
            assert_eq!(cookie_value, b"1".to_vec());
        },
        Outcome::Rejected => panic!("authorized request was rejected"),
    }
    assert_eq!(store.visitors.rows.len(), 1, "the fallback row is the seeded one");
}

#[test]
fn unknown_cookie_id_is_materialized() {
    let mut store = fresh_store();
    let config = example_config();
    let outcome = log_visitor(&mut store, &config, &blog_headers(), &b"10.0.0.9".to_vec(),
        &Some(b"77".to_vec()), NOW);
    match outcome {
        Outcome::Recorded { visitor_id, .. } => assert_eq!(visitor_id, 77),
        Outcome::Rejected => panic!("authorized request was rejected"),
    }
    assert_eq!(store.visitors.rows.len(), 2);
    assert_eq!(store.visitors.rows[1].id, 77);
    assert_eq!(store.visitors.rows[1].first_visit, None);
    assert_eq!(log_visitor(&mut store, &config, &blog_headers(), &b"10.0.0.9".to_vec(),
        &Some(b"78".to_vec()), NOW), Outcome::Recorded { visitor_id: 78, cookie_value:
        b"78".to_vec() });
}

#[test]
fn capture_flags_substitute_the_sentinel_id() {
    let mut store = fresh_store();
    let mut config = example_config();
    config.save_ip = false;
    config.save_user_agent = false;
    log_visitor(&mut store, &config, &blog_headers(), &b"10.0.0.9".to_vec(), &None, NOW);
    assert_eq!(store.user_agents.rows.len(), 1, "no user-agent row is created");
    assert_eq!(store.ips.rows.len(), 1, "no ip row is created");
    assert_eq!(store.visits[0].user_agent_id, 1);
    assert_eq!(store.visits[0].ip_id, 1);
}

#[test]
fn enabled_capture_resolves_real_values() {
    let mut store = fresh_store();
    let mut config = example_config();
    config.save_ip = true;
    config.save_user_agent = true;
    log_visitor(&mut store, &config, &blog_headers(), &b"10.0.0.9".to_vec(), &None, NOW);
    assert_eq!(store.user_agents.rows.len(), 2);
    assert_eq!(store.user_agents.rows[1], b"a browser".to_vec());
    assert_eq!(store.ips.rows.len(), 2);
    assert_eq!(store.ips.rows[1], b"10.0.0.9".to_vec());
    assert_eq!(store.visits[0].user_agent_id, 2);
    assert_eq!(store.visits[0].ip_id, 2);
}

#[test]
fn the_visitor_cookie_is_long_lived_secure_and_cross_site() {
    assert_eq!(cookie_name_bytes(), b"visitor_id".to_vec());
    let c = VisitorCookie::for_visitor(2);
    assert_eq!(c.name, b"visitor_id".to_vec());
    assert_eq!(c.value, b"2".to_vec());
    assert_eq!(c.max_age_seconds, 31536000, "365 days");
    assert!(c.secure);
    assert!(c.cross_site);
}

#[test]
fn missing_referer_is_recorded_only_under_the_flag() {
    let headers = ExtractedHeaders::from_raw(
        RawHeader::Missing,
        RawHeader::Present(b"a browser".to_vec()),
    );
    let mut store = fresh_store();
    let mut config = example_config();
    let outcome = log_visitor(&mut store, &config, &headers, &b"10.0.0.9".to_vec(), &None, NOW);
    assert_eq!(outcome, Outcome::Rejected);
    assert_eq!(store.visits.len(), 0);

    config.save_missing_referer = true;
    let outcome = log_visitor(&mut store, &config, &headers, &b"10.0.0.9".to_vec(), &None, NOW);
    assert_eq!(outcome.status_code(), 200);
    assert_eq!(store.visits.len(), 1);
    assert_eq!(store.urls.rows[1], b"MISSING_REFERER_HEADER".to_vec());
}
