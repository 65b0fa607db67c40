# miniredis

A small server for the Redis protocol, built as a verified library (`src/`) and a thin
program around it (`app/`).

- `resp`: the `Resp` value and its model.
- `parser`: reading a RESP frame from bytes (streaming: "more bytes needed", a value, or an
  error), and decimal numbers.
- `resp_codec`: writing frames and the `RespCodec` that reads and writes them on a buffer.
- `frame_laws`: proofs that reading the bytes of a value gives it back, that a partial frame
  asks for more bytes, and that an outcome, once reached, stays.
- `db`: entries with an optional time to live and the in-memory database; `waiters`: the
  clients blocked in `BLPOP`.
- `command`: the commands, the registry of their names and the handling of a request.

`app/main.rs` accepts connections, frames them with the codec, and performs the waiting
that `BLPOP` asks for.
