# productivity_api

The verified core of a productivity back-end (accounts and roles, a calendar
of holidays and personal events, todo lists, projects with boards, sprints,
tasks and notes, income/expense transactions and subscriptions,
transportation expenses, and property types).

- `src/` is the library, written in Verus. Each service decision (who may do
  what, which error a request gets, what is stored, what is answered) is a
  function from plain values to plain values with a contract, and the laws
  that tie several functions together are public proof functions named
  `law_*`.
  - `src/common/`: pagination and answers, text normalization, calendar
    arithmetic, ranking, errors, query helpers, passwords (argon2), token
    claims, request rules.
  - `src/modules/`: one file per feature.
- `app/` is the HTTP server around it (axum, diesel on PostgreSQL, JSON
  web tokens, OpenAPI docs). It reads requests and the database, calls the
  library, and writes the answers.
- `tests/` runs the library on concrete values.
