//! The per-system registry of Python codecs: an encoder and a decoder
//! (Python callables, opaque here) per manifest, a fallback pair for
//! manifests without one, and a mirror of the manifests in the byte-codec
//! registry.

use vstd::prelude::*;
use std::sync::Arc;
use crate::codec::{share, JsonCodec, PyCodecRegistry as ByteCodecRegistry};
use crate::sorted::{sorted_keys, strictly_sorted, views};
use crate::str_map::StrMap;
use crate::supervision::{find_last_dot, last_dot};

verus! {

/// One registration: the codec's name and its two callables.
pub struct CodecEntry<F> {
    pub name: String,
    pub encoder: Arc<F>,
    pub decoder: Arc<F>,
}

/// A manifest that was already registered, and under which codec.
#[derive(Debug, Clone, PartialEq, Eq)]
pub struct CodecCollision {
    pub manifest: String,
    pub existing_name: String,
}

/// The text of a collision refusal.
pub open spec fn collision_message(manifest: Seq<char>, existing: Seq<char>) -> Seq<char> {
    "manifest '"@ + manifest + "' already registered as codec '"@ + existing
        + "'; pass force=True to override"@
}

impl CodecCollision {
    /// The error text.
    pub fn message(&self) -> (s: String)
        ensures
            s@ == collision_message(self.manifest@, self.existing_name@),
    {
        let mut s = String::from_str("manifest '");
        s.append(self.manifest.as_str());
        s.append("' already registered as codec '");
        s.append(self.existing_name.as_str());
        s.append("'; pass force=True to override");
        s
    }
}

/// Why a registration was refused.
#[derive(Debug, Clone, PartialEq, Eq)]
pub enum RegisterError {
    /// No manifest was given.
    EmptyManifests,
    /// A manifest was taken, and `force` was not set.
    Collision(CodecCollision),
}

/// `j` is the first position of `manifests` that `entries` already has.
pub open spec fn first_taken<F>(entries: Map<Seq<char>, CodecEntry<F>>, manifests: Seq<String>, j: int) -> bool {
    &&& 0 <= j < manifests.len()
    &&& entries.contains_key(manifests[j]@)
    &&& forall|k: int| 0 <= k < j ==> !entries.contains_key(#[trigger] manifests[k]@)
}

/// Some manifest of `manifests` is already in `entries`.
pub open spec fn any_taken<F>(entries: Map<Seq<char>, CodecEntry<F>>, manifests: Seq<String>) -> bool {
    exists|j: int| 0 <= j < manifests.len() && entries.contains_key(#[trigger] manifests[j]@)
}

/// `entries` with every manifest of `manifests` registered to `e`.
pub open spec fn registered<F>(
    entries: Map<Seq<char>, CodecEntry<F>>,
    manifests: Seq<String>,
    e: CodecEntry<F>,
) -> Map<Seq<char>, CodecEntry<F>> {
    Map::new(
        |m: Seq<char>| entries.contains_key(m) || views(manifests).contains(m),
        |m: Seq<char>|
            if views(manifests).contains(m) {
                e
            } else {
                entries[m]
            },
    )
}

/// Python codecs by manifest.
pub struct PyCodecRegistry<F> {
    entries: StrMap<CodecEntry<F>>,
    rust_mirror: ByteCodecRegistry<JsonCodec>,
    default: Option<(Arc<F>, Arc<F>)>,
}

impl<F> PyCodecRegistry<F> {
    /// The registration of each manifest.
    pub closed spec fn entries_view(&self) -> Map<Seq<char>, CodecEntry<F>> {
        self.entries@
    }

    /// The manifests of the byte-codec mirror.
    pub closed spec fn mirror_manifests(&self) -> Set<Seq<char>> {
        self.rust_mirror@.dom()
    }

    /// The fallback pair.
    pub closed spec fn default_view(&self) -> Option<(Arc<F>, Arc<F>)> {
        self.default
    }

    pub closed spec fn wf(&self) -> bool {
        self.entries.wf() && self.rust_mirror.wf()
    }

    /// No codec, no fallback.
    pub fn new() -> (r: Self)
        ensures
            r.wf(),
            r.entries_view() == Map::<Seq<char>, CodecEntry<F>>::empty(),
            r.mirror_manifests() == Set::<Seq<char>>::empty(),
            r.default_view() is None,
    {
        let r = PyCodecRegistry { entries: StrMap::new(), rust_mirror: ByteCodecRegistry::new(), default: None };
        assert(r.mirror_manifests() =~= Set::<Seq<char>>::empty());
        r
    }

    /// The encoder and decoder for `manifest`: its own, else the fallback.
    pub fn lookup(&self, manifest: &str) -> (r: Option<(Arc<F>, Arc<F>)>)
        requires
            self.wf(),
        ensures
            r == (if self.entries_view().contains_key(manifest@) {
                Some(
                    (
                        self.entries_view()[manifest@].encoder,
                        self.entries_view()[manifest@].decoder,
                    ),
                )
            } else {
                self.default_view()
            }),
    {
        match self.entries.get(manifest) {
            Some(e) => Some((share(&e.encoder), share(&e.decoder))),
            None => match &self.default {
                Some((e, d)) => Some((share(e), share(d))),
                None => None,
            },
        }
    }

    /// Whether `manifest` has a registration of its own.
    pub fn contains(&self, manifest: &str) -> (r: bool)
        requires
            self.wf(),
        ensures
            r == self.entries_view().contains_key(manifest@),
    {
        self.entries.contains_key(manifest)
    }

    fn first_collision(&self, manifests: &Vec<String>) -> (r: Option<usize>)
        requires
            self.wf(),
        ensures
            match r {
                Some(j) => first_taken(self.entries_view(), manifests@, j as int),
                None => !any_taken(self.entries_view(), manifests@),
            },
    {
        let mut j: usize = 0;
        while j < manifests.len()
            invariant
                self.wf(),
                j <= manifests@.len(),
                forall|k: int| 0 <= k < j ==> !self.entries_view().contains_key(#[trigger] manifests@[k]@),
            decreases manifests@.len() - j,
        {
            if self.entries.contains_key(manifests[j].as_str()) {
                return Some(j);
            }
            j = j + 1;
        }
        None
    }

    /// Registers the codec `name` for every manifest in `manifests`. Unless
    /// `force` is set, a manifest that is already registered refuses the
    /// whole call, naming the first such manifest and its codec, and
    /// nothing changes; with `force`, earlier registrations are replaced.
    /// On success the byte-codec mirror gets the JSON codec for the
    /// manifests too.
    pub fn insert(
        &mut self,
        name: String,
        encoder: Arc<F>,
        decoder: Arc<F>,
        manifests: &Vec<String>,
        force: bool,
    ) -> (r: Result<(), CodecCollision>)
        requires
            old(self).wf(),
        ensures
            final(self).wf(),
            r is Err <==> (!force && any_taken(old(self).entries_view(), manifests@)),
            match r {
                Err(c) => {
                    &&& exists|j: int|
                        first_taken(old(self).entries_view(), manifests@, j) && c.manifest@
                            == manifests@[j]@ && c.existing_name@ == old(self).entries_view()[manifests@[j]@].name@
                    &&& final(self).entries_view() == old(self).entries_view()
                    &&& final(self).mirror_manifests() == old(self).mirror_manifests()
                },
                Ok(_) => {
                    &&& final(self).entries_view() == registered(
                        old(self).entries_view(),
                        manifests@,
                        (CodecEntry { name, encoder, decoder }),
                    )
                    &&& final(self).mirror_manifests() == old(self).mirror_manifests().union(
                        views(manifests@).to_set(),
                    )
                },
            },
            final(self).default_view() == old(self).default_view(),
    {
        if !force {
            match self.first_collision(manifests) {
                Some(j) => {
                    let existing = self.entries.get(manifests[j].as_str()).unwrap();
                    let c = CodecCollision {
                        manifest: manifests[j].clone(),
                        existing_name: existing.name.clone(),
                    };
                    proof {
                        assert(first_taken(self.entries_view(), manifests@, j as int) && c.manifest@
                            == manifests@[j as int]@ && c.existing_name@ == self.entries_view()[manifests@[j as int]@].name@);
                        assert(any_taken(self.entries_view(), manifests@));
                    }
                    return Err(c);
                },
                None => {},
            }
        }
        let ghost e = CodecEntry { name, encoder, decoder };
        let ghost old_entries = self.entries@;
        let mut i: usize = 0;
        while i < manifests.len()
            invariant
                self.entries.wf(),
                self.rust_mirror.wf(),
                self.rust_mirror@ == old(self).rust_mirror@,
                self.default == old(self).default,
                force || !any_taken(old_entries, manifests@),
                i <= manifests@.len(),
                e == (CodecEntry { name, encoder, decoder }),
                self.entries@ == registered(old_entries, manifests@.take(i as int), e),
            decreases manifests@.len() - i,
        {
            let ghost before = self.entries@;
            let entry = CodecEntry { name: name.clone(), encoder: share(&encoder), decoder: share(&decoder) };
            self.entries.insert(manifests[i].clone(), entry);
            proof {
                let prev = views(manifests@.take(i as int));
                let next = views(manifests@.take(i + 1));
                assert(next =~= prev.push(manifests@[i as int]@));
                assert forall|m: Seq<char>| #[trigger] next.contains(m) <==> (prev.contains(m) || m
                    == manifests@[i as int]@) by {
                    if next.contains(m) {
                        let q = choose|q: int| 0 <= q < next.len() && next[q] == m;
                        if q < prev.len() {
                            assert(prev[q] == m);
                        }
                    }
                    if prev.contains(m) {
                        let q = choose|q: int| 0 <= q < prev.len() && prev[q] == m;
                        assert(next[q] == m);
                    }
                    if m == manifests@[i as int]@ {
                        assert(next[i as int] == m);
                    }
                }
                assert(self.entries@ =~= registered(old_entries, manifests@.take(i + 1), e));
            }
            i = i + 1;
        }
        proof {
            assert(manifests@.take(manifests@.len() as int) =~= manifests@);
        }
        let ghost mirror_before = self.rust_mirror@;
        self.rust_mirror.register(Arc::new(JsonCodec), clone_strings(manifests));
        proof {
            assert(self.rust_mirror@.dom() =~= mirror_before.dom().union(views(manifests@).to_set()));
        }
        Ok(())
    }

    /// Sets the fallback pair used for manifests without a codec.
    pub fn install_default(&mut self, encoder: Arc<F>, decoder: Arc<F>)
        ensures
            final(self).wf() == old(self).wf(),
            final(self).entries_view() == old(self).entries_view(),
            final(self).mirror_manifests() == old(self).mirror_manifests(),
            final(self).default_view() == Some((encoder, decoder)),
    {
        self.default = Some((encoder, decoder));
    }

    /// `register`: refuses an empty manifest list, else inserts.
    pub fn register(
        &mut self,
        name: String,
        encoder: Arc<F>,
        decoder: Arc<F>,
        manifests: &Vec<String>,
        force: bool,
    ) -> (r: Result<(), RegisterError>)
        requires
            old(self).wf(),
        ensures
            final(self).wf(),
            manifests@.len() == 0 ==> r == Err::<(), RegisterError>(RegisterError::EmptyManifests)
                && final(self).entries_view() == old(self).entries_view()
                && final(self).mirror_manifests() == old(self).mirror_manifests(),
            manifests@.len() > 0 ==> {
                &&& r is Err <==> (!force && any_taken(old(self).entries_view(), manifests@))
                &&& r matches Err(e) ==> e is Collision
                &&& r is Ok ==> final(self).entries_view() == registered(
                    old(self).entries_view(),
                    manifests@,
                    (CodecEntry { name, encoder, decoder }),
                )
                &&& r is Err ==> final(self).entries_view() == old(self).entries_view()
            },
            final(self).default_view() == old(self).default_view(),
    {
        if manifests.len() == 0 {
            return Err(RegisterError::EmptyManifests);
        }
        match self.insert(name, encoder, decoder, manifests, force) {
            Ok(()) => Ok(()),
            Err(c) => Err(RegisterError::Collision(c)),
        }
    }

    /// Every registered manifest, in increasing order.
    pub fn manifests(&self) -> (v: Vec<String>)
        requires
            self.wf(),
        ensures
            strictly_sorted(views(v@)),
            forall|m: Seq<char>| #[trigger] views(v@).contains(m) <==> self.entries_view().contains_key(m),
    {
        sorted_keys(&self.entries)
    }

    /// The names of the registered codecs, each once, in increasing order.
    pub fn names(&self) -> (v: Vec<String>)
        requires
            self.wf(),
        ensures
            strictly_sorted(views(v@)),
            forall|x: Seq<char>| #[trigger] views(v@).contains(x) <==> exists|m: Seq<char>|
                self.entries_view().contains_key(m) && #[trigger] self.entries_view()[m].name@ == x,
    {
        let n = self.entries.len();
        let mut seen: StrMap<()> = StrMap::new();
        let mut i: usize = 0;
        while i < n
            invariant
                self.wf(),
                seen.wf(),
                n == self.entries.pairs().len(),
                i <= n,
                forall|x: Seq<char>| #[trigger] seen@.contains_key(x) <==> exists|k: int|
                    0 <= k < i && #[trigger] self.entries.pairs()[k].1.name@ == x,
            decreases n - i,
        {
            let ghost before = seen@;
            seen.insert(self.entries.value_at(i).name.clone(), ());
            proof {
                assert forall|x: Seq<char>| #[trigger] seen@.contains_key(x) <==> exists|k: int|
                    0 <= k < i + 1 && #[trigger] self.entries.pairs()[k].1.name@ == x by {
                    if seen@.contains_key(x) && x != self.entries.pairs()[i as int].1.name@ {
                        assert(before.contains_key(x));
                    }
                    if exists|k: int| 0 <= k < i + 1 && #[trigger] self.entries.pairs()[k].1.name@ == x {
                        let k = choose|k: int| 0 <= k < i + 1 && #[trigger] self.entries.pairs()[k].1.name@ == x;
                        if k < i {
                            assert(before.contains_key(x));
                        }
                    }
                }
            }
            i = i + 1;
        }
        let v = sorted_keys(&seen);
        proof {
            assert forall|x: Seq<char>| #[trigger] views(v@).contains(x) <==> exists|m: Seq<char>|
                self.entries_view().contains_key(m) && #[trigger] self.entries_view()[m].name@ == x by {
                if views(v@).contains(x) {
                    let k = choose|k: int| 0 <= k < n && #[trigger] self.entries.pairs()[k].1.name@ == x;
                    crate::str_map::lemma_pairs_at(self.entries.pairs(), k);
                    let m = self.entries.pairs()[k].0@;
                    assert(self.entries_view().contains_key(m) && self.entries_view()[m].name@ == x);
                }
                if exists|m: Seq<char>| self.entries_view().contains_key(m) && #[trigger] self.entries_view()[m].name@ == x {
                    let m = choose|m: Seq<char>| self.entries_view().contains_key(m) && #[trigger] self.entries_view()[m].name@ == x;
                    crate::str_map::lemma_pairs_key(self.entries.pairs(), m);
                    let k = crate::str_map::pairs_index(self.entries.pairs(), m);
                    assert(self.entries.pairs()[k].1.name@ == x);
                    assert(seen@.contains_key(x));
                }
            }
        }
        v
    }
}

fn clone_strings(v: &Vec<String>) -> (r: Vec<String>)
    ensures
        r@ == v@,
{
    let mut r: Vec<String> = Vec::new();
    let mut i: usize = 0;
    while i < v.len()
        invariant
            i <= v@.len(),
            r@ == v@.take(i as int),
        decreases v@.len() - i,
    {
        r.push(v[i].clone());
        proof {
            assert(v@.take(i + 1) =~= v@.take(i as int).push(v@[i as int]));
        }
        i = i + 1;
    }
    proof {
        assert(v@.take(v@.len() as int) =~= v@);
    }
    r
}

/// The refusal of a manifest without a dot.
pub open spec fn no_dot_message(manifest: Seq<char>) -> Seq<char> {
    "manifest `"@ + manifest + "` must be `module.qualname` (no dot found)"@
}

/// Splits a manifest `module.qualname` at its last dot; refused when it
/// has none.
pub fn split_manifest(manifest: &str) -> (r: Result<(&str, &str), String>)
    ensures
        match last_dot(manifest@) {
            Some(i) => r matches Ok((module, qualname)) && module@ == manifest@.take(i as int)
                && qualname@ == manifest@.skip(i as int + 1),
            None => r matches Err(m) && m@ == no_dot_message(manifest@),
        },
{
    let n = manifest.unicode_len();
    proof {
        assert(manifest@.subrange(0, n as int) =~= manifest@);
    }
    match find_last_dot(manifest, 0, n) {
        Some(i) => Ok((manifest.substring_char(0, i), manifest.substring_char(i + 1, n))),
        None => {
            let mut m = String::from_str("manifest `");
            m.append(manifest);
            m.append("` must be `module.qualname` (no dot found)");
            Err(m)
        },
    }
}

} // verus!
