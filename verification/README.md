# tpu_sender

Takes Solana transactions over HTTP and sends them straight to the TPU sockets
of the current and the upcoming leaders.

`src/` is the verified core. It holds every decision and no I/O:

- `cluster`: what the cluster reports about itself, as plain values.
- `engine::recent_leaders_slot`: the recent slots and the estimate of the current one.
- `engine::leader_tpu_map`, `engine::leader_tpu_cache`: the leader schedule, the
  sockets of the leaders, and the lookups; `engine::lookup_laws` states what holds of them.
- `engine::leader_tpu_service`: both of these together, and the slot watcher.
- `engine::service_startup`, `engine::cache_refresher`: the start of the service and
  the loop that keeps it up to date, as steps from an answer to the next request.
- `engine::backend_tpu_client`: what to send to whom, and what the outcomes of the sends mean.
- `transaction`, `server`: the wire form of a transaction; decoding, retries and
  replies of the server.
- `ordering`, `text`: sorting and searching.
- `outside`: the calls into other crates, each with the contract it is trusted to keep.

`app/` runs the core against the network: an Axum server with `GET /`,
`POST /send_txn` and `POST /send_batch`. It reads `RPC_URL` and `WS_URL`. To build
it, add the network crates of Solana that `app/main.rs` names: `Cargo.toml` leaves
them out, because the core uses none of them.

A failed submission is repeated after 100 ms, ten attempts in all.
