# iuc_bot

A terminal client for the university's sign-on service (AKSIS) and student
information system (OBS): sign in (with an SMS code when asked), view the
personal record, browse exam grades by term, and pick courses for the term.

- `src/` is the verified library: form and reply handling for both services
  (HTML is read through `scraper`), the page state machines (login form,
  dashboard tabs, course list with its cursor and selection, grade table),
  the screen layout and the navigation history. Each public function states
  its behaviour in `requires`/`ensures`, and the laws that tie functions
  together (undoing a move, going back after going forward, toggling twice)
  are proof functions.
- `app/` is the program around it: HTTP with `reqwest`, the cache file, JSON
  decoding with `serde`, drawing with `ratatui`, terminal input with
  `crossterm`, and the main loop. With arguments `<year> <term>` it signs in
  on the command line and prints that term's grades.
- `tests/` runs the library on concrete inputs.
