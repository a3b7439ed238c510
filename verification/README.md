# adinmo

A small web system — a front server with basic authentication and record
endpoints over a MariaDB table, and a number service that draws numbers, has
them echoed, stores them and reports the ones that came back more than once —
whose decisions are written and proved in Verus.

- `src/` is the verified library: frequency tallies and the ascending list of
  repeated numbers (`frequency`, `service`, `hyper_service`), the JSON answer
  (`json`), basic-authentication credentials (`credentials`, `auth`), the
  record model and database errors (`database`), the answers of the record
  endpoints (`handlers`, `reply`), the `/run` relay (`forwarding`), and the
  integration client's addresses and checks (`client`, `text`).
- `app/` is the executable around it: the actix and hyper servers, the
  database queries and the HTTP client. `adinmo <server|service|hyper-service|actix-server|client>`
  picks the program to run.
- `tests/` exercises the library on concrete values.
