# gbm_platform

The logic of a window backend that draws straight to a display card: no display
server, one surface per window, buffers shown by page flips.

- `src/` is the library, verified with Verus. The event loop (`event_loop`), the
  store of windows (`store`, `target`), windows (`window`), page flips (`flip`), and
  the choice of monitor, mode and controller (`monitor`, `card`) are functions on
  plain values. `run` states what holds of a run of the loop as a whole, `calls` what
  the callback can do to windows, and `turns` what holds of both together.
- `app/` opens the card, runs the readiness loop, calls the user's callback and
  carries out what the library asks for.
- `tests/` runs the library.
