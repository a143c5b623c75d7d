//! Byte codecs for Python payloads, routed by manifest (the payload's
//! logical class name).

use vstd::prelude::*;
use std::sync::Arc;
use crate::str_map::StrMap;
use crate::sorted::{sorted_keys, strictly_sorted, views};

verus! {

/// Errors of the codec layer.
#[derive(Debug)]
#[non_exhaustive]
pub enum PyCodecError {
    Encode(String),
    Decode(String),
    UnknownManifest(String),
}

/// A byte-in, byte-out codec for Python payloads. Embedders implement it
/// once per Python codec (JSON, pickle, msgpack, ...).
pub trait PyCodec: Send + Sync {
    /// Stable identifier (e.g. "json", "msgpack", "pickle").
    fn id(&self) -> &str;

    /// Serializes a payload already converted to bytes.
    fn encode(&self, manifest: &str, payload: &[u8]) -> Result<Vec<u8>, PyCodecError>;

    /// Deserializes a blob back to the payload bytes.
    fn decode(&self, manifest: &str, blob: &[u8]) -> Result<Vec<u8>, PyCodecError>;
}

/// The type tag of a type-erased Python payload on the wire.
#[derive(Debug, Clone)]
pub struct PyBytes(pub Vec<u8>);

/// Codecs by manifest.
pub struct PyCodecRegistry<C> {
    inner: StrMap<Arc<C>>,
}

impl<C> View for PyCodecRegistry<C> {
    type V = Map<Seq<char>, Arc<C>>;

    closed spec fn view(&self) -> Map<Seq<char>, Arc<C>> {
        self.inner@
    }
}

impl<C: PyCodec> PyCodecRegistry<C> {
    pub closed spec fn wf(&self) -> bool {
        self.inner.wf()
    }

    pub fn new() -> (r: Self)
        ensures
            r.wf(),
            r@ == Map::<Seq<char>, Arc<C>>::empty(),
    {
        PyCodecRegistry { inner: StrMap::new() }
    }

    /// Registers `codec` for every manifest in `manifests`, replacing
    /// earlier registrations of them.
    pub fn register(&mut self, codec: Arc<C>, manifests: Vec<String>)
        requires
            old(self).wf(),
        ensures
            final(self).wf(),
            forall|m: Seq<char>| #[trigger]
                final(self)@.contains_key(m) <==> (old(self)@.contains_key(m) || views(
                    manifests@,
                ).contains(m)),
            forall|m: Seq<char>| #[trigger]
                final(self)@.contains_key(m) ==> final(self)@[m] == (if views(manifests@).contains(m) {
                    codec
                } else {
                    old(self)@[m]
                }),
    {
        let mut i: usize = 0;
        while i < manifests.len()
            invariant
                self.wf(),
                i <= manifests@.len(),
                forall|m: Seq<char>| #[trigger]
                    self@.contains_key(m) <==> (old(self)@.contains_key(m) || views(
                        manifests@.take(i as int),
                    ).contains(m)),
                forall|m: Seq<char>| #[trigger]
                    self@.contains_key(m) ==> self@[m] == (if views(manifests@.take(i as int)).contains(
                        m,
                    ) {
                        codec
                    } else {
                        old(self)@[m]
                    }),
            decreases manifests@.len() - i,
        {
            let ghost before = views(manifests@.take(i as int));
            let ghost prev = self@;
            let key = manifests[i].clone();
            self.inner.insert(key, share(&codec));
            proof {
                assert(self@ == prev.insert(manifests@[i as int]@, codec));
                let after = views(manifests@.take(i + 1));
                assert(after =~= before.push(manifests@[i as int]@));
                assert forall|m: Seq<char>| #[trigger] after.contains(m) <==> (before.contains(m) || m
                    == manifests@[i as int]@) by {
                    if after.contains(m) {
                        let q = choose|q: int| 0 <= q < after.len() && after[q] == m;
                        if q < before.len() {
                            assert(before[q] == m);
                        }
                    }
                    if before.contains(m) {
                        let q = choose|q: int| 0 <= q < before.len() && before[q] == m;
                        assert(after[q] == m);
                    }
                    if m == manifests@[i as int]@ {
                        assert(after[i as int] == m);
                    }
                }
            }
            i = i + 1;
        }
        assert(manifests@.take(manifests@.len() as int) =~= manifests@);
    }

    /// Every `(manifest, codec)` registration, each manifest once, in no
    /// particular order.
    pub fn snapshot(&self) -> (v: Vec<(String, Arc<C>)>)
        requires
            self.wf(),
        ensures
            forall|i: int|
                0 <= i < v@.len() ==> self@.contains_key(#[trigger] v@[i].0@) && self@[v@[i].0@]
                    == v@[i].1,
            forall|m: Seq<char>|
                self@.contains_key(m) ==> exists|i: int| 0 <= i < v@.len() && #[trigger] v@[i].0@ == m,
            forall|i: int, j: int|
                0 <= i < v@.len() && 0 <= j < v@.len() && i != j ==> #[trigger] v@[i].0@
                    != #[trigger] v@[j].0@,
    {
        let n = self.inner.len();
        let ghost pairs = self.inner.pairs();
        let mut v: Vec<(String, Arc<C>)> = Vec::new();
        let mut i: usize = 0;
        while i < n
            invariant
                self.wf(),
                pairs == self.inner.pairs(),
                n == pairs.len(),
                i <= n,
                v@.len() == i,
                forall|k: int| 0 <= k < i ==> #[trigger] v@[k] == pairs[k],
            decreases n - i,
        {
            v.push((self.inner.key_at(i).clone(), share(self.inner.value_at(i))));
            i = i + 1;
        }
        proof {
            assert forall|k: int| 0 <= k < v@.len() implies self@.contains_key(#[trigger] v@[k].0@)
                && self@[v@[k].0@] == v@[k].1 by {
                crate::str_map::lemma_pairs_at(pairs, k);
            }
            assert forall|m: Seq<char>| self@.contains_key(m) implies exists|k: int|
                0 <= k < v@.len() && #[trigger] v@[k].0@ == m by {
                crate::str_map::lemma_pairs_key(pairs, m);
                let k = crate::str_map::pairs_index(pairs, m);
                assert(v@[k].0@ == m);
            }
        }
        v
    }

    /// The codec registered for `manifest`.
    pub fn get(&self, manifest: &str) -> (r: Option<Arc<C>>)
        requires
            self.wf(),
        ensures
            match r {
                Some(c) => self@.contains_key(manifest@) && c == self@[manifest@],
                None => !self@.contains_key(manifest@),
            },
    {
        match self.inner.get(manifest) {
            Some(c) => Some(share(c)),
            None => None,
        }
    }

    /// Encodes `payload` with the codec of `manifest`.
    pub fn encode(&self, manifest: &str, payload: &[u8]) -> (r: Result<Vec<u8>, PyCodecError>)
        requires
            self.wf(),
        ensures
            !self@.contains_key(manifest@) ==> (r matches Err(PyCodecError::UnknownManifest(m))
                && m@ == manifest@),
            self@.contains_key(manifest@) ==> call_ensures(
                C::encode,
                (&*self@[manifest@], manifest, payload),
                r,
            ),
    {
        match self.inner.get(manifest) {
            Some(c) => c.encode(manifest, payload),
            None => Err(PyCodecError::UnknownManifest(String::from_str(manifest))),
        }
    }

    /// Decodes `blob` with the codec of `manifest`.
    pub fn decode(&self, manifest: &str, blob: &[u8]) -> (r: Result<Vec<u8>, PyCodecError>)
        requires
            self.wf(),
        ensures
            !self@.contains_key(manifest@) ==> (r matches Err(PyCodecError::UnknownManifest(m))
                && m@ == manifest@),
            self@.contains_key(manifest@) ==> call_ensures(
                C::decode,
                (&*self@[manifest@], manifest, blob),
                r,
            ),
    {
        match self.inner.get(manifest) {
            Some(c) => c.decode(manifest, blob),
            None => Err(PyCodecError::UnknownManifest(String::from_str(manifest))),
        }
    }

    /// The registered manifests, in increasing order.
    pub fn manifests(&self) -> (v: Vec<String>)
        requires
            self.wf(),
        ensures
            strictly_sorted(views(v@)),
            forall|m: Seq<char>| #[trigger] views(v@).contains(m) <==> self@.contains_key(m),
    {
        sorted_keys(&self.inner)
    }
}

/// Calls `Arc::clone`: another pointer to the same allocation, which Verus
/// models as the same value.
#[verifier::external_body]
pub(crate) fn share<C>(a: &Arc<C>) -> (r: Arc<C>)
    ensures
        r == *a,
{
    Arc::clone(a)
}

/// Whether `text` parses as JSON, as serde_json decides: `None` when it
/// does, else the parser's error message.
pub uninterp spec fn json_parse_error(text: Seq<char>) -> Option<Seq<char>>;

/// The message of the error that refuses ill-formed UTF-8 bytes.
pub uninterp spec fn utf8_error_message(bytes: Seq<u8>) -> Seq<char>;

/// Calls `std::str::from_utf8`. Its documentation promises success exactly
/// on well-formed UTF-8, with the text those bytes encode; the error's
/// message is a function of the bytes alone.
#[verifier::external_body]
fn utf8_text(bytes: &[u8]) -> (r: Result<&str, String>)
    ensures
        match r {
            Ok(s) => vstd::utf8::valid_utf8(bytes@) && s@ == vstd::utf8::decode_utf8(bytes@),
            Err(m) => !vstd::utf8::valid_utf8(bytes@) && m@ == utf8_error_message(bytes@),
        },
{
    std::str::from_utf8(bytes).map_err(|e| e.to_string())
}

/// Calls `serde_json::from_str::<serde_json::Value>`, keeping only whether
/// it succeeded and, if not, the error's message.
#[verifier::external_body]
fn check_json(text: &str) -> (r: Result<(), String>)
    ensures
        match r {
            Ok(()) => json_parse_error(text@) is None,
            Err(m) => json_parse_error(text@) == Some(m@),
        },
{
    match serde_json::from_str::<serde_json::Value>(text) {
        Ok(_) => Ok(()),
        Err(e) => Err(e.to_string()),
    }
}

/// How the JSON codec treats `bytes`: passed through unchanged when they are
/// UTF-8 text that parses as JSON; otherwise the reason, in the order the
/// checks are made.
pub open spec fn json_check(bytes: Seq<u8>) -> Result<(), Seq<char>> {
    if !vstd::utf8::valid_utf8(bytes) {
        Err(utf8_error_message(bytes))
    } else {
        match json_parse_error(vstd::utf8::decode_utf8(bytes)) {
            None => Ok(()),
            Some(m) => Err(m),
        }
    }
}

/// What the JSON codec makes of `bytes`: the same bytes when they are UTF-8
/// JSON text, else the message that refuses them.
pub open spec fn json_passthrough(bytes: Seq<u8>) -> Result<Seq<u8>, Seq<char>> {
    match json_check(bytes) {
        Ok(()) => Ok(bytes),
        Err(m) => Err(m),
    }
}

/// What the JSON codec passes, it passes again unchanged: decoding what was
/// encoded gives the payload back.
pub proof fn lemma_json_passthrough_round_trip(payload: Seq<u8>, blob: Seq<u8>)
    requires
        json_passthrough(payload) == Ok::<Seq<u8>, Seq<char>>(blob),
    ensures
        json_passthrough(blob) == Ok::<Seq<u8>, Seq<char>>(payload),
{
}

fn json_bytes_check(bytes: &[u8]) -> (r: Result<(), String>)
    ensures
        match r {
            Ok(()) => json_check(bytes@) is Ok,
            Err(m) => json_check(bytes@) == Err::<(), Seq<char>>(m@),
        },
{
    let s = utf8_text(bytes)?;
    check_json(s)
}

/// Copies a byte slice.
fn bytes_to_vec(b: &[u8]) -> (v: Vec<u8>)
    ensures
        v@ == b@,
{
    let mut v: Vec<u8> = Vec::new();
    let mut i: usize = 0;
    while i < b.len()
        invariant
            i <= b@.len(),
            v@ == b@.take(i as int),
        decreases b@.len() - i,
    {
        v.push(b[i]);
        assert(v@ =~= b@.take(i + 1));
        i = i + 1;
    }
    assert(b@.take(b@.len() as int) =~= b@);
    v
}

/// Reference JSON codec: passes any UTF-8 JSON text through unchanged.
pub struct JsonCodec;

impl PyCodec for JsonCodec {
    fn id(&self) -> (s: &str)
        ensures
            s@ == "json"@,
    {
        "json"
    }

    fn encode(&self, manifest: &str, payload: &[u8]) -> (r: Result<Vec<u8>, PyCodecError>)
        ensures
            match r {
                Ok(v) => json_passthrough(payload@) == Ok::<Seq<u8>, Seq<char>>(v@),
                Err(PyCodecError::Encode(m)) => json_passthrough(payload@) == Err::<Seq<u8>, Seq<char>>(
                    m@,
                ),
                Err(_) => false,
            },
    {
        match json_bytes_check(payload) {
            Ok(()) => Ok(bytes_to_vec(payload)),
            Err(m) => Err(PyCodecError::Encode(m)),
        }
    }

    fn decode(&self, manifest: &str, blob: &[u8]) -> (r: Result<Vec<u8>, PyCodecError>)
        ensures
            match r {
                Ok(v) => json_passthrough(blob@) == Ok::<Seq<u8>, Seq<char>>(v@),
                Err(PyCodecError::Decode(m)) => json_passthrough(blob@) == Err::<Seq<u8>, Seq<char>>(
                    m@,
                ),
                Err(_) => false,
            },
    {
        match json_bytes_check(blob) {
            Ok(()) => Ok(bytes_to_vec(blob)),
            Err(m) => Err(PyCodecError::Decode(m)),
        }
    }
}

/// A registry preloaded with the JSON codec for the given manifests.
pub fn json_codec(manifests: Vec<String>) -> (r: PyCodecRegistry<JsonCodec>)
    ensures
        r.wf(),
        forall|m: Seq<char>| #[trigger] r@.contains_key(m) <==> views(manifests@).contains(m),
{
    let mut reg = PyCodecRegistry::new();
    reg.register(Arc::new(JsonCodec), manifests);
    reg
}

} // verus!
