# atomr — verified core

The decision logic of the atomr actor runtime, written in Verus and proved
against its contracts: cluster membership bookkeeping, shard allocation and
the event-sourced shard coordinator, the cluster tools (client, singleton,
publish/subscribe), and the pure parts of the Python bindings (supervision
deciders, codec registries, interpreter pools, finite-state machines,
naming rules).

## Layout

- `src/` — the verified library (crate `atomr`). Each module states a
  mathematical model of its types (spec functions and views) and gives every
  public function a `requires`/`ensures` contract over that model. Laws that
  relate several functions are public `proof fn`s named `lemma_*`.
  - `text`, `str_map`, `sorted` — strings, a string-keyed map, sorted key lists.
  - `vector_clock`, `reachability`, `cluster_ops`, `daemon`, `sbr_strategy`,
    `names` — cluster state and the membership operations of the facade.
  - `allocation`, `coordinator`, `sharding_names` — sharding.
  - `cluster_client`, `singleton`, `pub_sub` — cluster tools.
  - `supervision`, `codec`, `remote_codecs`, `actor_registry`, `interpreter`,
    `fsm`, `router`, `paths`, `compat`, `ddata_surface`, `exporters`,
    `services`, `stream_policy` — the Python bindings' own logic.
- `tests/` — tests of the library on concrete values.
- `app/` — what the library leaves to ordinary Rust: timers and polling loops,
  worker threads, wire formats (serde/bincode), error display (thiserror),
  shared handles, and the floating-point cluster metrics.

Calls into outside code are made through a handful of trusted wrappers,
each with a doc comment saying what it assumes: `String::push`,
`Arc::clone`, `std::str::from_utf8` and `serde_json::from_str`.
