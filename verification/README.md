# opentelemetry_sink

A sink that sends logs, metrics and traces to a collector as Protobuf messages of the OpenTelemetry
Protocol (OTLP) over HTTP, verified with Verus.

- `src/` is the library. It decides all that the sink does: which message an event becomes, which
  bytes the message is written as, where a batch goes and with which headers, and what a healthcheck
  fetches next. `src/lib.rs` lists the modules; `src/laws.rs` and the `law_` functions of the other
  modules state what holds of them together.
- `app/` reads configuration files, takes events from the pipeline and talks HTTP.
- `tests/` runs the library, and reads its payloads with the message types of `opentelemetry-proto`.

Doubles are held as their bit patterns. Calls into other crates stand behind small functions marked
`#[verifier::external_body]`, in `text`, `value`, `ids`, `wire`, `uri` and `ordered`; the comment
above each says what is taken on trust.
