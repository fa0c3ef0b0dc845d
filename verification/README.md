# dcontext

Scoped, typed context values that travel with the flow of execution: across
calls, tasks and threads, and across processes as bytes. The library is written
in Verus; every function of it is verified against its contract.

## Layout

- `src/store.rs`, `src/scope.rs`, `src/frozen.rs`: the scopes of a context and of
  its forks, and `src/store_laws.rs`, what holds of them.
- `src/registry.rs`, `src/value.rs`, `src/key_map.rs`: the keys that are known,
  with their types, versions, codecs and migrations.
- `src/wire_format.rs`, `src/wire.rs`, `src/snapshot.rs`: contexts as bytes and
  as snapshots.
- `src/cell.rs`, `src/context.rs`, `src/attach.rs`, `src/sync_ctx.rs`,
  `src/async_ctx.rs`, `src/sync_storage.rs`: the context of a thread and of a
  task.
- `src/fork.rs`, `src/helpers.rs`, `src/inheritance.rs`, `src/future_ext.rs`,
  `src/context_future.rs`: handing a context on.
- `src/context_key.rs`: keys with a type; `src/config.rs`: limits;
  `src/error.rs`: errors; `src/text.rs`: texts.
- `src/tracing_bridge/`: values between spans, log lines and contexts.
- `src/actor_bridge/`, `src/cluster.rs`: contexts along with messages.
- `tests/`: tests of the library.
- `app/`: thread and task storage, guards, futures, and the traits of other
  crates around the library.

## What is taken on trust

Five items stand for code outside the library: the type `std::any::TypeId` and
its `==`, `Arc::try_unwrap`, and `bincode::serialize` and `bincode::deserialize`
for the fields of a context. Their doc comments say what is claimed of them.

A context value is any type with `ContextValue`; encoders, decoders, formatters
and extractors are functions that the caller brings. Contracts speak of them
through what they can return, and ask only that they can be called.
