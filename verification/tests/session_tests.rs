use almarjaa_network::session::session_id_from_draws;
use almarjaa_network::{Session, SessionManager, TimeSpan};

#[test]
fn session_set_get_remove() {
    let mut s = Session::new("abc", TimeSpan::from_secs(60));
    assert_eq!(s.id, "abc");
    assert_eq!(s.get("user"), None);
    s.set("user", "ali");
    assert_eq!(s.get("user"), Some(&"ali".to_string()));
    s.set("user", "omar");
    assert_eq!(s.get("user"), Some(&"omar".to_string()));
    assert_eq!(s.remove("user"), Some("omar".to_string()));
    assert_eq!(s.get("user"), None);
    assert_eq!(s.remove("user"), None);
}

#[test]
fn session_expiry_at_given_times() {
    let mut s = Session::new("x", TimeSpan::from_nanos(100));
    assert!(!s.is_expired_at(0));
    assert!(!s.is_expired_at(100));
    assert!(s.is_expired_at(101));
    s.touch_at(50);
    assert_eq!(s.last_activity, 50);
    assert!(!s.is_expired_at(150));
    assert!(s.is_expired_at(151));
    assert!(!s.is_expired_at(10));
}

#[test]
fn fresh_session_is_not_expired() {
    let s = Session::new("y", TimeSpan::from_secs(3600));
    assert!(!s.is_expired());
}

#[test]
fn manager_create_get_destroy() {
    let mut m = SessionManager::new(TimeSpan::from_secs(3600));
    assert_eq!(m.count(), 0);
    let id = m.create();
    assert_eq!(id.len(), 32);
    assert!(id.chars().all(|c| c.is_ascii_alphanumeric()));
    assert_eq!(m.count(), 1);
    {
        let s = m.get(&id).expect("live session");
        assert_eq!(s.id, id);
        s.set("k", "v");
    }
    assert_eq!(m.get(&id).unwrap().get("k"), Some(&"v".to_string()));
    assert!(m.get("missing").is_none());
    m.destroy(&id);
    assert_eq!(m.count(), 0);
    assert!(m.get(&id).is_none());
}

#[test]
fn manager_ids_differ() {
    let mut m = SessionManager::new(TimeSpan::from_secs(3600));
    let a = m.create();
    let b = m.create();
    assert_ne!(a, b);
    assert_eq!(m.count(), 2);
}

#[test]
fn manager_discards_expired_sessions() {
    let mut m = SessionManager::new(TimeSpan::from_nanos(10));
    let id = m.create();
    let created = {
        let s = m.get_at(&id, 0).unwrap();
        s.last_activity
    };
    assert_eq!(created, 0);
    assert!(m.get_at(&id, 10).is_some());
    assert!(m.get_at(&id, 21).is_none());
    assert_eq!(m.count(), 0);
}

#[test]
fn manager_cleanup_at() {
    let mut m = SessionManager::new(TimeSpan::from_nanos(1_000_000_000));
    let a = m.create();
    let b = m.create();
    m.get_at(&a, 0).unwrap();
    m.get_at(&b, 0).unwrap();
    m.get_at(&a, 900_000_000).unwrap();
    m.cleanup_at(1_500_000_000);
    assert_eq!(m.count(), 1);
    assert!(m.get_at(&b, 1_500_000_000).is_none());
    assert!(m.get_at(&a, 1_500_000_000).is_some());
    m.cleanup();
    assert_eq!(m.count(), 1);
}

#[test]
fn expiry_lasts_until_touched() {
    let mut s = Session::starting_at("z", TimeSpan::from_nanos(0), std::time::Instant::now(), 500);
    assert!(!s.is_expired_at(500));
    assert!(s.is_expired_at(501));
    assert!(s.is_expired_at(10_000));
    assert!(s.is_expired_at(u128::MAX));
    s.touch_at(20_000);
    assert!(!s.is_expired_at(20_000));
}

#[test]
fn session_id_picks_charset_characters() {
    let draws: Vec<usize> = (0..32).map(|i| (i * 2) % 62).collect();
    let id = session_id_from_draws(&draws);
    assert_eq!(id, "acegikmoqsuwyACEGIKMOQSUWY02468a");
    let last: Vec<usize> = vec![61; 32];
    assert_eq!(session_id_from_draws(&last), "9".repeat(32));
}

#[test]
fn count_leaves_out_expired_sessions() {
    let mut m = SessionManager::new(TimeSpan::from_nanos(100));
    let a = m.create();
    let b = m.create();
    m.get_at(&a, 1_000).unwrap();
    m.get_at(&b, 5_000).unwrap();
    assert_eq!(m.count_at(1_050), 2);
    assert_eq!(m.count_at(1_100), 2);
    assert_eq!(m.count_at(1_101), 1);
    assert_eq!(m.count_at(5_101), 0);
    m.destroy(&b);
    assert_eq!(m.count_at(1_000), 1);
    m.destroy(&b);
    assert_eq!(m.count_at(1_000), 1);
}
