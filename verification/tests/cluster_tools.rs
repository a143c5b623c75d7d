use atomr::cluster_client::{ClusterClient, ClusterClientError, ClusterClientSettings, ClusterReceptionist};
use atomr::singleton::{ClusterSingletonManager, SendOutcome, SingletonState};

#[test]
fn receptionist_register_lookup() {
    let mut rec: ClusterReceptionist<u32> = ClusterReceptionist::new();
    rec.register("svc".to_string(), 7);
    let c = ClusterClient::new(rec);
    assert!(c.receptionist.lookup("svc").is_some());
}

#[test]
fn next_contact_round_robins() {
    let s = ClusterClientSettings::default()
        .with_initial_contacts(vec!["a".to_string(), "b".to_string(), "c".to_string()]);
    let mut c = ClusterClient::with_settings((), s);
    assert_eq!(c.next_contact().as_deref(), Some("a"));
    assert_eq!(c.next_contact().as_deref(), Some("b"));
    assert_eq!(c.next_contact().as_deref(), Some("c"));
    assert_eq!(c.next_contact().as_deref(), Some("a"));
}

#[test]
fn registered_lists_services_sorted() {
    let mut rec: ClusterReceptionist<u32> = ClusterReceptionist::new();
    rec.register("zebra".to_string(), 1);
    rec.register("alpha".to_string(), 1);
    rec.register("middle".to_string(), 1);
    assert_eq!(rec.registered(), vec!["alpha", "middle", "zebra"]);
}

#[test]
fn unregister_removes_service() {
    let mut rec: ClusterReceptionist<u32> = ClusterReceptionist::new();
    rec.register("svc".to_string(), 1);
    rec.unregister("svc");
    assert!(rec.lookup("svc").is_none());
    assert!(rec.registered().is_empty());
}

/// Drives contact-point discovery the way the client's async loop does,
/// without the pauses: returns the resolved contact and the number of tries.
fn establish<F: FnMut(&str) -> bool>(
    c: &mut ClusterClient<()>,
    mut try_resolve: F,
) -> Result<(String, u32), ClusterClientError> {
    let mut attempt = c.begin_establish()?;
    let mut tries = 0;
    loop {
        let contact = c.attempt_contact(attempt)?;
        tries += 1;
        if try_resolve(&contact) {
            return Ok((contact, tries));
        }
        let _pause = c.pause_after(attempt);
        attempt += 1;
    }
}

#[test]
fn establish_returns_first_resolved_contact() {
    let s = ClusterClientSettings::default()
        .with_initial_contacts(vec!["a".to_string(), "b".to_string()])
        .with_max_attempts(3);
    let mut c = ClusterClient::with_settings((), s);
    let (contact, tries) = establish(&mut c, |contact| contact == "b").unwrap();
    assert_eq!(contact, "b");
    assert_eq!(tries, 2);
}

#[test]
fn establish_no_contacts_errors() {
    let mut c = ClusterClient::new(());
    let r = establish(&mut c, |_| false);
    assert!(matches!(r, Err(ClusterClientError::NoContacts)));
}

#[test]
fn establish_exhausts_after_max_attempts() {
    let s = ClusterClientSettings::default()
        .with_initial_contacts(vec!["x".to_string()])
        .with_max_attempts(3);
    let mut c = ClusterClient::with_settings((), s);
    let r = establish(&mut c, |_| false);
    assert!(matches!(r, Err(ClusterClientError::Exhausted { attempts: 3 })));
}

#[test]
fn pause_only_between_attempts() {
    let s = ClusterClientSettings::default()
        .with_initial_contacts(vec!["x".to_string()])
        .with_max_attempts(3);
    let c = ClusterClient::with_settings((), s);
    assert_eq!(c.pause_after(0), Some(3000));
    assert_eq!(c.pause_after(1), Some(3000));
    assert_eq!(c.pause_after(2), None);
}

#[test]
fn settings_defaults() {
    let s = ClusterClientSettings::default();
    assert!(s.initial_contacts.is_empty());
    assert_eq!(s.establishing_get_contacts_interval, 3000);
    assert_eq!(s.reconnect_timeout, 10000);
    assert_eq!(s.max_attempts, 10);
}

#[test]
fn proxy_routes_to_current_singleton() {
    let mut mgr: ClusterSingletonManager<&str, u32> = ClusterSingletonManager::new();
    let flushed = mgr.set_active_here("singleton");
    assert!(flushed.is_empty());
    assert!(mgr.current().is_some());
}

#[test]
fn handover_state_transitions() {
    let mut mgr: ClusterSingletonManager<&str, u32> = ClusterSingletonManager::new();
    assert!(matches!(mgr.state(), SingletonState::Inactive));
    mgr.begin_starting();
    assert!(matches!(mgr.state(), SingletonState::Starting));
    mgr.set_active_here("s");
    assert!(matches!(mgr.state(), SingletonState::Active { here: true, .. }));
    mgr.begin_handover();
    assert!(matches!(mgr.state(), SingletonState::HandingOver));
}

#[test]
fn proxy_buffers_during_handover_and_flushes_after() {
    let mut mgr: ClusterSingletonManager<&str, u32> = ClusterSingletonManager::new();
    for i in 0..3 {
        assert!(matches!(mgr.buffer_or_deliver(i), SendOutcome::Buffered));
    }
    assert_eq!(mgr.buffered(), 3);
    let flushed = mgr.set_active_here("s");
    assert_eq!(flushed, vec![0, 1, 2]);
    assert_eq!(mgr.buffered(), 0);
    assert!(matches!(mgr.buffer_or_deliver(3), SendOutcome::Deliver(3)));
}

#[test]
fn full_buffer_drops_and_counts_overflow() {
    let mut mgr: ClusterSingletonManager<&str, u32> = ClusterSingletonManager::with_buffer_size(2);
    assert!(matches!(mgr.buffer_or_deliver(1), SendOutcome::Buffered));
    assert!(matches!(mgr.buffer_or_deliver(2), SendOutcome::Buffered));
    assert!(matches!(mgr.buffer_or_deliver(3), SendOutcome::Dropped(3)));
    assert_eq!(mgr.drops(), 1);
    assert_eq!(mgr.buffered(), 2);
}

#[test]
fn set_active_remote_marks_here_false() {
    let mut mgr: ClusterSingletonManager<&str, u32> = ClusterSingletonManager::new();
    mgr.set_active_remote("remote-host");
    match mgr.state() {
        SingletonState::Active { here, .. } => assert!(!here),
        _ => panic!("expected active-remote"),
    }
}

#[test]
fn clear_forgets_singleton() {
    let mut mgr: ClusterSingletonManager<&str, u32> = ClusterSingletonManager::new();
    mgr.set_active_here("s");
    mgr.clear();
    assert!(mgr.current().is_none());
    assert!(matches!(mgr.buffer_or_deliver(5), SendOutcome::Buffered));
}
