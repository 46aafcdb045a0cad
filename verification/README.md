# popis

A service that collects the votings of the Polish parliament (Sejm) from its web
pages, stores them in PostgreSQL, and serves a game: the player is shown random
votings, says how they would have voted, and learns which parliamentary clubs voted
like them most often.

- `src/` is the library, verified with Verus: reading the pages (`fetching`), the
  domain and the game rules (`domain`), what is sent to the database (`db`), reading
  the HTTP path parameters (`server`), and the text and number handling they share
  (`text`, `keyed`).
- `app/` is the program around it: HTTP fetching, PostgreSQL, the actix-web server.
- `tests/` run the library on concrete inputs.
