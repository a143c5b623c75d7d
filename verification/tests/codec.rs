use std::sync::Arc;

use atomr::codec::{json_codec, JsonCodec, PyCodec, PyCodecError, PyCodecRegistry};

struct FixedCodec(&'static str);

impl PyCodec for FixedCodec {
    fn id(&self) -> &str {
        self.0
    }
    fn encode(&self, _manifest: &str, payload: &[u8]) -> Result<Vec<u8>, PyCodecError> {
        Ok([&[0xAB], payload].concat())
    }
    fn decode(&self, _manifest: &str, blob: &[u8]) -> Result<Vec<u8>, PyCodecError> {
        if blob.first() != Some(&0xAB) {
            return Err(PyCodecError::Decode("missing magic".into()));
        }
        Ok(blob[1..].to_vec())
    }
}

#[test]
fn registry_routes_by_manifest() {
    let mut reg = PyCodecRegistry::new();
    reg.register(Arc::new(FixedCodec("a")), vec!["A.Msg".to_string()]);
    reg.register(Arc::new(FixedCodec("b")), vec!["B.Msg".to_string()]);
    let a = reg.encode("A.Msg", b"hello").unwrap();
    assert_eq!(a, vec![0xAB, b'h', b'e', b'l', b'l', b'o']);
    let back = reg.decode("A.Msg", &a).unwrap();
    assert_eq!(back, b"hello");
    assert_eq!(reg.get("B.Msg").unwrap().id(), "b");
}

#[test]
fn unknown_manifest_is_an_error() {
    let reg: PyCodecRegistry<FixedCodec> = PyCodecRegistry::new();
    let err = reg.encode("nope", b"x").unwrap_err();
    assert!(matches!(err, PyCodecError::UnknownManifest(_)));
}

#[test]
fn json_codec_round_trips_valid_json() {
    let codec = JsonCodec;
    let blob = codec.encode("Cmd", b"{\"k\":1}").unwrap();
    let back = codec.decode("Cmd", &blob).unwrap();
    assert_eq!(back, b"{\"k\":1}");
}

#[test]
fn json_codec_rejects_invalid_json() {
    let codec = JsonCodec;
    assert!(codec.encode("Cmd", b"not json").is_err());
}

#[test]
fn json_codec_factory_seeds_manifests() {
    let reg = json_codec(vec!["Foo".to_string(), "Bar".to_string()]);
    let mut ms = reg.manifests();
    ms.sort();
    assert_eq!(ms, vec!["Bar", "Foo"]);
}

#[test]
fn json_codec_rejects_invalid_utf8_and_names_itself() {
    let codec = JsonCodec;
    assert!(matches!(codec.decode("Cmd", &[0xff, 0xfe]), Err(PyCodecError::Decode(_))));
    assert!(matches!(codec.encode("Cmd", &[0xff]), Err(PyCodecError::Encode(_))));
    assert_eq!(codec.id(), "json");
}

#[test]
fn registering_again_replaces_the_codec() {
    let mut reg = PyCodecRegistry::new();
    reg.register(Arc::new(FixedCodec("a")), vec!["M".to_string(), "N".to_string()]);
    reg.register(Arc::new(FixedCodec("b")), vec!["N".to_string()]);
    assert_eq!(reg.get("M").unwrap().id(), "a");
    assert_eq!(reg.get("N").unwrap().id(), "b");
    assert_eq!(reg.manifests(), vec!["M", "N"]);
}

#[test]
fn snapshot_lists_each_registration_once() {
    let mut reg = PyCodecRegistry::new();
    reg.register(Arc::new(FixedCodec("a")), vec!["A.One".to_string(), "A.Two".to_string()]);
    reg.register(Arc::new(FixedCodec("b")), vec!["A.Two".to_string(), "B.One".to_string()]);
    let mut snap: Vec<(String, String)> = reg.snapshot().iter().map(|(m, c)| (m.clone(), c.id().to_string())).collect();
    snap.sort();
    let want: Vec<(String, String)> = [("A.One", "a"), ("A.Two", "b"), ("B.One", "b")]
        .iter()
        .map(|(m, c)| (m.to_string(), c.to_string()))
        .collect();
    assert_eq!(snap, want);
}
