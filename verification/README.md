# users_api

The logic of a small user-directory web service (create, read, update,
delete and list users stored in PostgreSQL), verified with Verus.

- `src/` — the verified library:
  - `error.rs`: the service's error type, how database failures are
    classified, and the status and message a client receives;
  - `text.rs`: splitting text into words, substring tests, reading `i32`s;
  - `filter.rs`: the filter language of the listing endpoint;
  - `query.rs`: the ordering parameter and the listing query;
  - `users.rs`: the user models and the listing: its query and its page.
- `app/` — the HTTP server (actix-web), database access (diesel) and JSON
  (serde), calling the library.
- `tests/` — tests of the library.
