# misskey

A client for the [Misskey](https://misskey-hub.net) API, verified with Verus.

- `src/` — the library, every function with a contract proved by Verus:
  - `url.rs`: URLs held by their serialization, and the endpoint URL under
    an API root (trailing empty segment dropped, endpoint pieces pushed);
    the `url` crate does the parsing and path editing.
  - `json.rs`: JSON values with objects as entries sorted by key, as
    `serde_json`'s default map keeps them.
  - `client.rs`: `HttpClient` (API root, token, reqwest transport), the
    request body with the token under `i`, upload text fields, and how a
    response is read.
  - `builder.rs`: `HttpClientBuilder`.
  - `request.rs`, `model.rs`, `api/`, `endpoint/`, `streaming.rs`: request
    and model types, pagination.
- `app/` — the I/O around it: serde serialization, sending with reqwest,
  multipart uploads, parsing answers.
- `tests/` — tests on concrete values.
