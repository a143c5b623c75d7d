use atomr::remote_codecs::{split_manifest, CodecCollision, PyCodecRegistry, RegisterError};
use std::sync::Arc;

fn ms(v: &[&str]) -> Vec<String> {
    v.iter().map(|s| s.to_string()).collect()
}

#[test]
fn register_refuses_collisions_unless_forced() {
    let mut r: PyCodecRegistry<&'static str> = PyCodecRegistry::new();
    assert!(r.register("pickle".to_string(), Arc::new("enc1"), Arc::new("dec1"), &ms(&["app.A", "app.B"]), false).is_ok());
    let e = r
        .register("json".to_string(), Arc::new("enc2"), Arc::new("dec2"), &ms(&["app.C", "app.B", "app.A"]), false)
        .unwrap_err();
    let c = CodecCollision { manifest: "app.B".to_string(), existing_name: "pickle".to_string() };
    assert_eq!(e, RegisterError::Collision(c.clone()));
    assert_eq!(c.message(), "manifest 'app.B' already registered as codec 'pickle'; pass force=True to override");
    // Nothing changed on refusal.
    assert!(!r.contains("app.C"));
    assert_eq!(r.names(), vec!["pickle".to_string()]);
    // Forced: replaced.
    assert!(r.register("json".to_string(), Arc::new("enc2"), Arc::new("dec2"), &ms(&["app.C", "app.B"]), true).is_ok());
    let (enc, dec) = r.lookup("app.B").unwrap();
    assert_eq!((*enc, *dec), ("enc2", "dec2"));
    assert_eq!(r.manifests(), ms(&["app.A", "app.B", "app.C"]));
    assert_eq!(r.names(), vec!["json".to_string(), "pickle".to_string()]);
    assert_eq!(
        r.register("x".to_string(), Arc::new("e"), Arc::new("d"), &ms(&[]), false),
        Err(RegisterError::EmptyManifests)
    );
}

#[test]
fn lookup_falls_back_to_default() {
    let mut r: PyCodecRegistry<&'static str> = PyCodecRegistry::new();
    assert!(r.lookup("app.X").is_none());
    r.install_default(Arc::new("json-enc"), Arc::new("json-dec"));
    let (enc, _) = r.lookup("app.X").unwrap();
    assert_eq!(*enc, "json-enc");
    assert!(!r.contains("app.X"));
}

#[test]
fn manifests_split_at_the_last_dot() {
    assert_eq!(split_manifest("pkg.mod.Class"), Ok(("pkg.mod", "Class")));
    assert_eq!(split_manifest("a.b"), Ok(("a", "b")));
    assert_eq!(
        split_manifest("Plain"),
        Err("manifest `Plain` must be `module.qualname` (no dot found)".to_string())
    );
}
