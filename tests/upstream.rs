use deet::upstream::{same_text, ProxyState};

fn addrs() -> Vec<String> {
    vec!["10.0.0.1:80".to_string(), "10.0.0.2:80".to_string(), "10.0.0.3:80".to_string()]
}

#[test]
fn dead_upstreams_are_skipped() {
    let mut p = ProxyState::new(addrs(), 0);
    assert_eq!(p.live_upstreams(), vec![0, 1, 2]);
    p.mark_dead("10.0.0.2:80");
    assert_eq!(p.live_upstreams(), vec![0, 2]);
    p.mark_dead("10.0.0.2:80");
    assert_eq!(p.dead_upstreams.len(), 1);
    p.mark_dead("10.0.0.1:80");
    p.mark_dead("10.0.0.3:80");
    assert!(p.live_upstreams().is_empty());
    p.mark_alive("10.0.0.1:80");
    assert_eq!(p.live_upstreams(), vec![0]);
}

#[test]
fn rate_limit_counts_per_client() {
    let mut p = ProxyState::new(addrs(), 2);
    assert!(p.record_request("1.1.1.1"));
    assert!(p.record_request("1.1.1.1"));
    assert!(!p.record_request("1.1.1.1"));
    assert!(p.record_request("2.2.2.2"));
    p.clear_counts();
    assert!(p.record_request("1.1.1.1"));
}

#[test]
fn no_limit_when_zero() {
    let mut p = ProxyState::new(addrs(), 0);
    for _ in 0..10 {
        assert!(p.record_request("1.1.1.1"));
    }
}

#[test]
fn text_equality() {
    assert!(same_text("abc", "abc"));
    assert!(!same_text("abc", "abd"));
    assert!(!same_text("abc", "ab"));
    assert!(same_text("", ""));
}
