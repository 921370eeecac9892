# vertigo (verified core)

The verified logic of a small reactive web front end:

- `src/driver.rs`: the document driver. It queues changes to the page as
  commands, sends them as one JSON array per flush, and decides which
  handler each browser event reaches (clicks, input and drops bubble up to
  the nearest ancestor with a handler; key presses go to the keyboard hooks
  first; pointer moves run leave and enter handlers).
- `src/driver_data.rs`, `src/visited.rs`: the node table behind the driver
  and the set of hovered nodes.
- `src/command.rs`, `src/json.rs`, `src/text.rs`: the command format.
- `src/hooks.rs`: callbacks run around reactive transactions.
- `src/vdom.rs`: virtual DOM values.
- `src/game_of_life.rs`: the Game of Life example's model; `src/css.rs`:
  style lists; `src/render.rs`: the example's view as virtual DOM.
- `src/laws.rs`: properties that span several operations.

Event handlers and transaction callbacks of the caller are named by
numbers; the library says which of them run and in what order. The game's
own clicks are values (`ClickAction`) that `State::apply` carries out, and
the driver's flush at the end of a transaction is a hook value that
`DriverBrowserDom::fire_hook` carries out. `app/main.rs` wires the
pieces together and stands in for the browser with standard output.
