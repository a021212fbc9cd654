# shopfloor

The decision logic of a workshop ERP back end, verified with Verus.

`src/` is the library. Every endpoint is a function from a request, the caller
and the facts known so far to the next step: one more thing to ask for, or the
outcome (`flow::Next`). Its contract is an open predicate that says, for every
state of the facts, what is asked for next and what is answered. Properties that
span steps or calls are public proof functions at the end of each file.

| module           | what it decides                                               |
|------------------|---------------------------------------------------------------|
| `upload_session` | opening, renewing and discarding upload sessions, their files |
| `worker_pool`    | handing batches to workers and taking them back               |
| `worker`         | workers and their badges                                      |
| `user`           | users, roles, passwords and the menu tree                     |
| `shelf`          | shelves, which of them to put a batch back on, their processes |
| `work_type`      | work types, their limits and their processes                  |
| `statistics`     | counts by day, by worker and by delivery                      |

`text`, `calendar`, `clock`, `paging`, `patch`, `mapping`, `auth`, `error` and
`flow` are shared. What is taken on trust is marked `external_body` or
`assume_specification` and says so in its doc comment: a few functions of std,
and calls into chrono and uuid.

`app/` is the HTTP service around the library: axum routes, SQL, Redis, and the
loops that perform what the endpoints ask for. `tests/` plays scenarios against
the library.
