# microblog

A small posting service (posts with threaded replies, tweets, accounts
with Argon2 password hashes) whose logic is verified with Verus.

- `src/models/`: the tables (`posts`, `tweets`, `users`) as vectors of rows
  with abstract views; every query and statement states exactly which rows
  it returns or changes. `password.rs` wraps the `argon2` crate.
- `src/routes/`: the HTTP handlers, split into steps so that the server can
  run each SQL statement between them; each handler's full behaviour on the
  tables is stated as an outcome function.
- `src/identity.rs`: writing and reading the user id kept in the session.
- `src/ordering.rs`: first matches, reorderings, and a verified stable sort.
- `src/laws.rs`: properties across operations (read after write, delete,
  replies, the front page, thread listings, register then login).
- `app/`: the actix-web server over PostgreSQL.
