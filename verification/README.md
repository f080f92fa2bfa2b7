# gitpersona

The verified core of GitPersona, a desktop tool for discovering GitHub users
and managing follower relations.

- `src/` is the library, verified with Verus: the search query built from
  criteria, page sizes, the GraphQL and REST result pages, the profile map,
  the follower relations, pacing of searches, paging through relation lists,
  the messages of refused requests, date validation and token selection.
- `app/` is the unverified shell around it: HTTP requests (reqwest), JSON
  decoding (serde), concurrency (tokio), the settings file and the commands
  that the front end calls.
- `tests/` runs the library on concrete values.
