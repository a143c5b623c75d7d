use atomr::interpreter::{
    nogil_supported, parse, subinterpreters_supported, InterpreterError, InterpreterInstance, InterpreterKind,
    InterpreterQuota, InterpreterRegistry,
};

#[test]
fn dispatcher_names_decode_to_kinds() {
    assert_eq!(parse("python-pinned", 8), InterpreterKind::Pinned);
    assert_eq!(parse("python-subinterpreter-pool", 0), InterpreterKind::SubinterpreterPool { count: 1 });
    assert_eq!(parse("python-nogil", 4), InterpreterKind::NoGil { threads: 4 });
    assert_eq!(parse("python-subprocess", 2), InterpreterKind::Subprocess { count: 2 });
    assert_eq!(parse("something-else", 3), InterpreterKind::Pinned);
    for k in [
        InterpreterKind::Pinned,
        InterpreterKind::SubinterpreterPool { count: 3 },
        InterpreterKind::NoGil { threads: 2 },
        InterpreterKind::Subprocess { count: 5 },
    ] {
        assert_eq!(parse(k.as_str(), k.worker_count()), k);
    }
    assert_eq!(InterpreterKind::default().worker_count(), 1);
}

#[test]
fn capability_probes() {
    assert!(!subinterpreters_supported(3, 11));
    assert!(subinterpreters_supported(3, 12));
    assert!(subinterpreters_supported(4, 0));
    assert!(!subinterpreters_supported(2, 99));
    assert!(nogil_supported(Some(false)));
    assert!(!nogil_supported(Some(true)));
    assert!(!nogil_supported(None));
}

fn pool(max_actors: Option<usize>, workers: Vec<&'static str>) -> InterpreterInstance<&'static str> {
    let mut q = InterpreterQuota::default();
    q.max_actors = max_actors;
    q.max_handler_ms = Some(5);
    InterpreterInstance::new("py".to_string(), InterpreterKind::SubinterpreterPool { count: workers.len() }, q, workers)
}

#[test]
fn max_actors_quota_refuses_beyond_the_cap() {
    let mut p = pool(Some(2), vec!["w0"]);
    assert!(p.register_actor().is_ok());
    assert!(p.register_actor().is_ok());
    let e = p.register_actor().unwrap_err();
    assert_eq!(e, InterpreterError::Overloaded { label: "py".to_string(), max_actors: 2 });
    assert_eq!(e.message(), "interpreter `py` reached max_actors=2");
    assert_eq!(p.snapshot_metrics().actors_hosted, 2);
    p.unregister_actor();
    assert!(p.register_actor().is_ok());
    let mut free = pool(None, vec!["w0"]);
    for _ in 0..10 {
        assert!(free.register_actor().is_ok());
    }
    assert_eq!(free.snapshot_metrics().actors_hosted, 10);
}

#[test]
fn workers_are_sticky_by_hash_and_round_robin_otherwise() {
    let mut p = pool(None, vec!["w0", "w1", "w2"]);
    assert_eq!(p.worker_count(), 3);
    assert_eq!(*p.worker_for(7), "w1");
    assert_eq!(*p.worker_for(7), "w1");
    assert_eq!(*p.worker_for(9), "w0");
    let order: Vec<&str> = (0..4).map(|_| *p.any_worker()).collect();
    assert_eq!(order, vec!["w0", "w1", "w2", "w0"]);
}

#[test]
fn handler_timings_are_counted() {
    let mut p = pool(None, vec!["w0"]);
    assert!(!p.record_handled(5_999_999));
    assert!(p.record_handled(6_000_000));
    p.record_panic();
    let m = p.snapshot_metrics();
    assert_eq!(m.messages_handled, 2);
    assert_eq!(m.gil_hold_ns_total, 11_999_999);
    assert_eq!(m.long_handlers, 1);
    assert_eq!(m.handler_panics, 1);
}

#[test]
fn registry_keeps_the_first_pool_of_a_label() {
    let mut r: InterpreterRegistry<u32> = InterpreterRegistry::new();
    assert_eq!(*r.get_or_create("b", || 1), 1);
    assert_eq!(*r.get_or_create("a", || 2), 2);
    assert_eq!(*r.get_or_create("b", || 3), 1);
    assert_eq!(r.get("a"), Some(&2));
    assert_eq!(r.get("c"), None);
    assert_eq!(r.labels(), vec!["a".to_string(), "b".to_string()]);
}

use atomr::props::PyProps;

#[test]
fn props_default_to_the_pinned_dispatcher_and_default_pool() {
    let p: PyProps<&'static str, u8> = PyProps::with_defaults("factory");
    assert_eq!(p.dispatcher, "python-pinned");
    assert_eq!(p.interpreter_role, "default");
    assert!(p.mailbox.is_none() && p.supervisor_strategy.is_none());
    let p = p.with_dispatcher("python-nogil".to_string()).with_mailbox("bounded".to_string()).with_supervisor_strategy(7);
    assert_eq!(p.factory, "factory");
    assert_eq!(p.dispatcher, "python-nogil");
    assert_eq!(p.mailbox.as_deref(), Some("bounded"));
    assert_eq!(p.supervisor_strategy, Some(7));
    assert_eq!(parse(&p.dispatcher, 4), InterpreterKind::NoGil { threads: 4 });
    let p = p.with_interpreter_role("gpu".to_string());
    assert_eq!(p.interpreter_role, "gpu");
}
