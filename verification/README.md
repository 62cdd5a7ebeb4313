# JBoy server

A netplay lobby with verified rules: rooms that players join and leave, administrators who log in
for 24 hours, and a WebSocket channel per room that speaks `jboy-link-1`.

- `src/` is the library, verified with Verus. `model.rs` says what the server keeps, and
  `admin.rs`, `lobby.rs` and `link.rs` say what each request and message does to it; `laws.rs`
  states what holds across requests. `clock.rs`, `ids.rs`, `channel.rs`, `headers.rs` and
  `json.rs` are the places where `chrono`, `uuid`, `tokio`, `axum` and `serde_json` are called.
- `tests/` runs it.
- `app/` is the server around it: routes, sockets and configuration.

## Configuration

- `JBOY_BIND` (default `0.0.0.0:8080`)
- `JBOY_ADMIN_PASSWORD` (default `admin123`)
- `RUST_LOG` (default `jboy_server=info,tower_http=info,axum=info`)

## HTTP

- `GET /health`
- `GET /stats` (administrator)
- `POST /admin/login`
- `GET /admin/verify` (administrator)
- `POST /admin/logout` (administrator)
- `GET /rooms`
- `GET /rooms/:room_id`
- `POST /rooms` (administrator)
- `DELETE /rooms/:room_id` (administrator)
- `POST /rooms/:room_id/join`
- `POST /rooms/:room_id/leave`
- `POST /rooms/:room_id/kick` (administrator, or administrator of the room)

An administrator's requests carry the token of the login in the header `x-admin-token`.

## WebSocket

`GET /ws/:room_id/:player` broadcasts `join`, `leave`, `message`, `protocol` and `room_closed`
envelopes inside the room. A player can send `{"type":"hello"}`, which is answered with a
`link_sync`, `{"type":"ready","ready":true|false}`, which updates the ready players and is
answered with a `link_sync`, and `{"type":"ping"}`, which is answered with a `pong`; anything else
is passed on as a `message`.
