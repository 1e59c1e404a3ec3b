use sentry_transport::proxy::{Proxy, Scheme};
use sentry_transport::ratelimit::RateLimitingCategory;
use sentry_transport::transport::{
    make_auth_header, Agent, ClientOptions, DeliveryOutcome, Dsn, Envelope, UreqHttpTransport,
    QUEUE_CAPACITY,
};
use sentry_transport::worker::{DeliveryWorker, FlushStatus, Phase};

fn options(scheme: Scheme, https: Option<&str>, http: Option<&str>) -> ClientOptions {
    ClientOptions {
        dsn: Some(Dsn {
            scheme,
            public_key: "abc123".to_string(),
            envelope_api_url: "https://o1.ingest.example/api/42/envelope/".to_string(),
        }),
        http_proxy: http.map(|p| p.to_string()),
        https_proxy: https.map(|p| p.to_string()),
        accept_invalid_certs: false,
        user_agent: "sentry.rust/0.1".to_string(),
    }
}

fn env(b: u8) -> Envelope {
    Envelope { bytes: vec![b] }
}

#[test]
fn worker_hands_out_in_enqueue_order() {
    let mut w: DeliveryWorker<u32> = DeliveryWorker::new(10);
    for i in 0..5u32 {
        assert!(w.enqueue(i));
    }
    let mut seen = Vec::new();
    while let Some(e) = w.next_delivery() {
        seen.push(e);
        w.finish_delivery();
    }
    assert_eq!(seen, vec![0, 1, 2, 3, 4]);
}

#[test]
fn worker_keeps_one_delivery_in_flight() {
    let mut w: DeliveryWorker<u32> = DeliveryWorker::new(10);
    assert!(w.enqueue(1));
    assert!(w.enqueue(2));
    assert_eq!(w.next_delivery(), Some(1));
    assert!(w.is_in_flight());
    assert_eq!(w.next_delivery(), None);
    w.finish_delivery();
    assert!(!w.is_in_flight());
    assert_eq!(w.next_delivery(), Some(2));
}

#[test]
fn full_queue_rejects_newest() {
    let mut w: DeliveryWorker<u32> = DeliveryWorker::new(2);
    assert!(w.enqueue(1));
    assert!(w.enqueue(2));
    assert!(!w.enqueue(3));
    assert_eq!(w.pending(), 2);
    assert_eq!(w.next_delivery(), Some(1));
    assert!(w.enqueue(4));
    w.finish_delivery();
    assert_eq!(w.next_delivery(), Some(2));
    w.finish_delivery();
    assert_eq!(w.next_delivery(), Some(4));
}

#[test]
fn flush_waits_for_envelopes_sent_before_it() {
    let mut w: DeliveryWorker<u32> = DeliveryWorker::new(10);
    assert!(w.enqueue(1));
    assert!(w.enqueue(2));
    let mark = w.flush_mark();
    assert!(w.enqueue(3));
    assert_eq!(w.flush_status(mark, 0, 10), FlushStatus::Waiting);
    assert_eq!(w.flush_status(mark, 10, 10), FlushStatus::TimedOut);
    w.next_delivery();
    w.finish_delivery();
    assert_eq!(w.flush_status(mark, 1, 10), FlushStatus::Waiting);
    w.next_delivery();
    assert_eq!(w.flush_status(mark, 1, 10), FlushStatus::Waiting);
    w.finish_delivery();
    assert_eq!(w.flush_status(mark, 1, 10), FlushStatus::Done);
    assert_eq!(w.flush_status(mark, 99, 10), FlushStatus::Done);
    assert_eq!(w.pending(), 1);
}

#[test]
fn empty_flush_is_done_at_once() {
    let w: DeliveryWorker<u32> = DeliveryWorker::new(10);
    let mark = w.flush_mark();
    assert_eq!(mark, 0);
    assert_eq!(w.flush_status(mark, 5, 5), FlushStatus::Done);
}

#[test]
fn draining_rejects_sends_but_delivers_queue() {
    let mut w: DeliveryWorker<u32> = DeliveryWorker::new(10);
    assert!(w.enqueue(1));
    w.begin_shutdown();
    assert_eq!(w.phase(), Phase::Draining);
    assert!(!w.enqueue(2));
    assert_eq!(w.next_delivery(), Some(1));
    w.finish_delivery();
    assert_eq!(w.next_delivery(), None);
}

#[test]
fn stopped_worker_delivers_nothing() {
    let mut w: DeliveryWorker<u32> = DeliveryWorker::new(10);
    assert!(w.enqueue(1));
    w.begin_shutdown();
    w.stop();
    assert_eq!(w.phase(), Phase::Stopped);
    assert_eq!(w.pending(), 0);
    assert!(!w.enqueue(2));
    assert_eq!(w.next_delivery(), None);
}

#[test]
fn new_transport_resolves_destination() {
    let t = UreqHttpTransport::new(&options(Scheme::Https, Some("https://secure:1"), Some("http://plain:2")));
    assert_eq!(t.url(), "https://o1.ingest.example/api/42/envelope/");
    assert_eq!(
        t.auth(),
        "Sentry sentry_key=abc123, sentry_version=7, sentry_client=sentry.rust/0.1"
    );
    assert_eq!(t.agent().proxy.as_ref().unwrap().url, "https://secure:1");
    assert!(t.agent().verify_tls);
    assert_eq!(t.phase(), Phase::Running);
    assert_eq!(t.pending(), 0);
}

#[test]
fn accepting_invalid_certs_disables_verification() {
    let mut o = options(Scheme::Http, None, None);
    o.accept_invalid_certs = true;
    let t = UreqHttpTransport::new(&o);
    assert!(!t.agent().verify_tls);
    assert!(t.agent().proxy.is_none());
}

#[test]
fn invalid_proxy_still_builds_transport_without_proxy() {
    let bad = UreqHttpTransport::new(&options(Scheme::Https, Some("not a proxy"), Some("nor this")));
    let none = UreqHttpTransport::new(&options(Scheme::Https, None, None));
    assert!(bad.agent().proxy.is_none());
    assert_eq!(bad.agent().verify_tls, none.agent().verify_tls);
    assert_eq!(bad.url(), none.url());
    assert_eq!(bad.auth(), none.auth());
}

#[test]
fn with_agent_keeps_given_agent() {
    let agent = Agent { proxy: Proxy::new("corp:3128"), verify_tls: false };
    let t = UreqHttpTransport::with_agent(&options(Scheme::Https, Some("https://secure:1"), None), agent);
    assert_eq!(t.agent().proxy.as_ref().unwrap().url, "corp:3128");
    assert!(!t.agent().verify_tls);
}

#[test]
fn auth_header_format() {
    assert_eq!(
        make_auth_header("k", "ua/1"),
        "Sentry sentry_key=k, sentry_version=7, sentry_client=ua/1"
    );
}

#[test]
fn transport_submits_in_order_and_records_limits() {
    let mut t = UreqHttpTransport::new(&options(Scheme::Https, None, None));
    t.send_envelope(env(1));
    t.send_envelope(env(2));
    let r = t.next_request().unwrap();
    assert_eq!(r.body, vec![1]);
    assert_eq!(r.url, t.url());
    assert_eq!(r.auth, t.auth());
    assert!(t.next_request().is_none());
    t.finish_delivery(
        DeliveryOutcome::Response {
            status: 200,
            rate_limits: Some("60:error, 120:transaction".to_string()),
            retry_after: None,
        },
        100,
    );
    assert!(t.is_rate_limited(RateLimitingCategory::Error, 159));
    assert!(!t.is_rate_limited(RateLimitingCategory::Error, 160));
    assert!(t.is_rate_limited(RateLimitingCategory::Transaction, 219));
    assert!(!t.is_rate_limited(RateLimitingCategory::Session, 100));
    let r = t.next_request().unwrap();
    assert_eq!(r.body, vec![2]);
    t.finish_delivery(DeliveryOutcome::Failed, 200);
    assert!(t.next_request().is_none());
    assert!(!t.is_rate_limited(RateLimitingCategory::Any, 200));
}

#[test]
fn transport_queue_is_bounded() {
    let mut t = UreqHttpTransport::new(&options(Scheme::Http, None, None));
    for i in 0..(QUEUE_CAPACITY + 5) {
        t.send_envelope(env(i as u8));
    }
    assert_eq!(t.pending(), QUEUE_CAPACITY);
}

#[test]
fn sends_after_shutdown_never_reach_network() {
    let mut t = UreqHttpTransport::new(&options(Scheme::Http, None, None));
    t.send_envelope(env(1));
    t.begin_shutdown();
    let mark = t.flush_mark();
    let r = t.next_request().unwrap();
    assert_eq!(r.body, vec![1]);
    t.finish_delivery(DeliveryOutcome::Failed, 0);
    assert_eq!(t.flush_status(mark, 0, 1), FlushStatus::Done);
    t.finish_shutdown();
    t.send_envelope(env(2));
    assert!(t.next_request().is_none());
    assert_eq!(t.phase(), Phase::Stopped);
}
