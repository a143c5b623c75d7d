use atomr::str_map::StrMap;
use atomr::supervision::{compile_decider, directive_name, parse_directive, Decider, Directive};

#[test]
fn decider_matches_module_qualname() {
    let mut rules = StrMap::new();
    rules.insert("builtins.ValueError".into(), Directive::Restart);
    let d = Decider::new(rules, Directive::Stop);
    assert_eq!(d.decide("builtins.ValueError: oops"), Directive::Restart);
    assert_eq!(d.decide("builtins.RuntimeError: bad"), Directive::Stop);
}

#[test]
fn decider_falls_back_to_bare_classname() {
    let mut rules = StrMap::new();
    rules.insert("ValueError".into(), Directive::Resume);
    let d = Decider::new(rules, Directive::Restart);
    assert_eq!(d.decide("builtins.ValueError: oops"), Directive::Resume);
}

#[test]
fn decider_uses_default_for_unknown() {
    let d = Decider::new(StrMap::new(), Directive::Escalate);
    assert_eq!(d.decide("foo.Bar: x"), Directive::Escalate);
}

#[test]
fn decider_trims_and_handles_messages_without_separator() {
    let mut rules = StrMap::new();
    rules.insert("pkg.Err".into(), Directive::Stop);
    let d = Decider::new(rules, Directive::Resume);
    assert_eq!(d.decide("  pkg.Err \t: details: more"), Directive::Stop);
    assert_eq!(d.decide("pkg.Err"), Directive::Stop);
    assert_eq!(d.decide("pkg.Err:no-space"), Directive::Resume);
    assert_eq!(d.decide(""), Directive::Resume);
}

#[test]
fn parse_directive_names() {
    assert_eq!(parse_directive("resume").unwrap(), Directive::Resume);
    assert_eq!(parse_directive("restart").unwrap(), Directive::Restart);
    assert_eq!(parse_directive("stop").unwrap(), Directive::Stop);
    assert_eq!(parse_directive("escalate").unwrap(), Directive::Escalate);
    assert_eq!(
        parse_directive("explode").unwrap_err(),
        "unknown directive `explode`; expected one of resume | restart | stop | escalate"
    );
    assert_eq!(directive_name(Directive::Escalate), "escalate");
}

#[test]
fn compile_decider_builds_table_and_default() {
    let d = compile_decider(
        Some(vec![("a.X".to_string(), "stop".to_string()), ("a.X".to_string(), "resume".to_string())]),
        None,
    )
    .unwrap();
    assert_eq!(d.decide("a.X: boom"), Directive::Resume);
    assert_eq!(d.decide("a.Y: boom"), Directive::Restart);
    let e = compile_decider(Some(vec![("a.X".to_string(), "nope".to_string())]), Some("stop".to_string()));
    assert_eq!(
        e.err().unwrap(),
        "unknown directive `nope`; expected one of resume | restart | stop | escalate"
    );
    let f = compile_decider(None, Some("bogus".to_string()));
    assert!(f.is_err());
    let g = compile_decider(None, Some("stop".to_string())).unwrap();
    assert_eq!(g.decide("x"), Directive::Stop);
}
