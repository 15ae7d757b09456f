# library_backend

The core of a library-lending web service, verified with Verus.

- `src/` is the verified library:
  - `id` – public identifiers: a database id tagged with its record kind,
    enciphered with AES-128 and written in base 52; parsing and writing are
    proved inverse to each other.
  - `digits` – little-endian numerals and their lemmas.
  - `auth` – password rules, Argon2id hashing and verification (`password`,
    `hashing`), roles and permission checks (`role`), refresh secrets and
    access-token claims (`token`), sign-up and sign-in decisions and session
    cookies (`session`), user profiles (`user`).
  - `catalog` – libraries and books: permission checks, id conversions and
    the shape of every answer.
  - `error` – the errors of the service with their HTTP status and text.
  - `config`, `secret`, `client` – settings, stored secrets, and the commands
    of the interactive client.
- `app/` is the service around it: configuration files, PostgreSQL through
  `sqlx`, the `axum` routes, JSON Web Tokens and logging.
- `tests/` runs the library on concrete values.
