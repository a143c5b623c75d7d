use atomr::fsm::{Fsm, FsmBuildError, FsmBuilder};
use std::cell::RefCell;

/// Handlers are named; the "call" looks the name up in a small script.
fn door() -> Fsm<&'static str, u32> {
    let mut b: FsmBuilder<&'static str, u32> = FsmBuilder::new();
    b.start_with("closed".to_string(), 0);
    b.when_state("closed".to_string(), "closed-handler");
    b.whenever("fallback");
    b.on_transition("log-transition");
    b.on_termination("log-stop");
    b.build().ok().unwrap()
}

fn script(h: &&'static str, state: &String, data: &u32, msg: &&'static str) -> Result<Option<(String, u32)>, String> {
    match (*h, *msg) {
        ("closed-handler", "open") => Ok(Some(("open".to_string(), data + 1))),
        ("closed-handler", "knock") => Ok(Some((state.clone(), data + 10))),
        ("closed-handler", "ignore") => Ok(None),
        ("fallback", "close") => Ok(Some(("closed".to_string(), *data))),
        ("fallback", "boom") => Err("handler failed".to_string()),
        _ => Ok(None),
    }
}

#[test]
fn build_without_start_with_is_refused() {
    let b: FsmBuilder<u8, u8> = FsmBuilder::new();
    let e = b.build().err().unwrap();
    assert_eq!(e, FsmBuildError::StartWithRequired);
    assert_eq!(e.message(), "FsmBuilder: start_with required");
}

#[test]
fn state_handler_moves_and_fires_transition_hook() {
    let mut m = door();
    let log = RefCell::new(Vec::new());
    let notify = |_h: &&'static str, a: &String, b: &String| -> Result<(), String> {
        log.borrow_mut().push(format!("{}->{}", a, b));
        Ok(())
    };
    assert!(m.handle(&"open", &script, &notify).is_ok());
    assert_eq!(m.state(), "open");
    assert_eq!(*m.data(), 1);
    // "open" has no handler of its own: the fallback answers.
    assert!(m.handle(&"close", &script, &notify).is_ok());
    assert_eq!(m.state(), "closed");
    assert_eq!(*log.borrow(), vec!["closed->open".to_string(), "open->closed".to_string()]);
}

#[test]
fn same_state_answer_updates_data_without_hook() {
    let mut m = door();
    let calls = RefCell::new(0);
    let notify = |_h: &&'static str, _a: &String, _b: &String| -> Result<(), String> {
        *calls.borrow_mut() += 1;
        Ok(())
    };
    assert!(m.handle(&"knock", &script, &notify).is_ok());
    assert_eq!(m.state(), "closed");
    assert_eq!(*m.data(), 10);
    assert!(m.handle(&"ignore", &script, &notify).is_ok());
    assert_eq!(*m.data(), 10);
    assert_eq!(*calls.borrow(), 0);
}

#[test]
fn failures_leave_the_machine_unchanged() {
    let mut m = door();
    let ok = |_h: &&'static str, _a: &String, _b: &String| -> Result<(), String> { Ok(()) };
    let failing = |_h: &&'static str, _a: &String, _b: &String| -> Result<(), String> { Err("hook failed".to_string()) };
    assert_eq!(m.handle(&"open", &script, &failing), Err("hook failed".to_string()));
    assert_eq!(m.state(), "closed");
    assert_eq!(*m.data(), 0);
    assert!(m.handle(&"open", &script, &ok).is_ok());
    assert_eq!(m.handle(&"boom", &script, &ok), Err("handler failed".to_string()));
    assert_eq!(m.state(), "open");
}

#[test]
fn no_handler_means_stay() {
    let mut b: FsmBuilder<&'static str, u32> = FsmBuilder::new();
    b.start_with("idle".to_string(), 3);
    let mut m = b.build().ok().unwrap();
    let ok = |_h: &&'static str, _a: &String, _b: &String| -> Result<(), String> { Ok(()) };
    assert!(m.handle(&"anything", &script, &ok).is_ok());
    assert_eq!(m.state(), "idle");
    assert_eq!(*m.data(), 3);
}

#[test]
fn stop_runs_termination_hook_with_state_and_data() {
    let m = door();
    let seen = RefCell::new(None);
    let r = m.stop(&|h: &&'static str, s: &String, d: &u32| -> Result<(), String> {
        *seen.borrow_mut() = Some((h.to_string(), s.clone(), *d));
        Ok(())
    });
    assert!(r.is_ok());
    assert_eq!(*seen.borrow(), Some(("log-stop".to_string(), "closed".to_string(), 0)));

    let mut b: FsmBuilder<&'static str, u32> = FsmBuilder::new();
    b.start_with("x".to_string(), 0);
    let quiet = b.build().ok().unwrap();
    assert!(quiet.stop(&|_h: &&'static str, _s: &String, _d: &u32| -> Result<(), String> { Err("called".to_string()) }).is_ok());
}
