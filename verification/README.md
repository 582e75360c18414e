# featherclick

A small autoclicker whose decisions are proved with Verus.

- `src/` is the verified library:
  - `config`: the settings record, its enums and labels, the defaults, and
    `sanitize`, with laws that sanitized settings are in range, that sanitizing
    is idempotent and keeps in-range settings, and that the defaults are sane.
  - `cli`: the command-line parser (`parse`), the run overrides (`Run::apply`)
    and the one-line run summary (`describe`), specified over character
    sequences; laws about when the window opens and what a run keeps.
  - `hotkeys`: parsing stored bindings through `global-hotkey`, building
    bindings from captured keys, showing them readably (`pretty`), the
    auto-repeat `Gate`, modifier sets, and the registration of bindings: which
    hotkeys are handed to the backend, which are withdrawn, and how each answer
    of the backend (up to the system) is recorded.
  - `engine`: stop reasons, the status shown by the window, the clicking
    session as a state machine (`Session::step`: the order of its steps, the
    limits, the count and the events it sends, with the law that the events
    come in order), the meaning of commands during and between sessions, and
    the sleep planner of the click loop.
  - `text`: trimming, splitting, joining, lower-casing and number text.
- `app/` is the program: the window (egui), the worker thread and the loop
  that performs the tasks a session hands out, the input backend (enigo), the
  clock, randomised timing and jitter (floating point), and the JSON settings
  file (serde).
- `tests/` runs the library on concrete values.
