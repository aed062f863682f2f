# fpl

A Fantasy Premier League Discord bot whose logic is a library verified with Verus.

- `src/` is the verified library: the game's identifiers (game weeks, clubs, fixtures,
  chips, positions), the FPL API's request URLs, the bonus table of a fixture, the rows of
  every text command, the data and the layout of every image (tables, teams, transfers,
  differentials, unique players), and the ranking behind autocompletion. Each public
  function states what it returns; the laws that span functions stand as public proof
  functions.
- `tests/` runs the library on concrete values.
- `app/` is the bot around it: the Discord commands, the database queries, the rate-limited
  HTTP client and its JSON parsing, and the drawing of the SVG and PNG images from the
  layouts the library computes.

Dates, thousands separators, ordinals and fuzzy scores come from `chrono`, `thousands`,
`ordinal` and `fuzzy-matcher`, called from the library through small trusted wrappers whose
contracts say what each crate does.
