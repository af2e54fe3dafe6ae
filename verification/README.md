# v1bectl

Home automation around an IKEA Dirigera hub: a device state store, a sync engine between the
store and the gateway, virtual devices (light groups, linear light groups, button controllers,
scene controllers), the request handling of the WebSocket API, and the decision logic of the
clients. The library under `src/` is written in Verus and proved against its `requires` /
`ensures` contracts; `app/` is the binary around it (the server, a `client` subcommand for the
command-line client and a `tui` subcommand for the terminal dashboard: argument handling, HTTP
and WebSocket I/O, drawing, timers, the clock, serde wire types).

## Layout

- `src/state.rs`, `src/store.rs`, `src/keyed.rs`: device records and the store, kept as tables
  keyed by id with unique keys.
- `src/sync.rs`: the sync engine: priority queue, buffer, retries with backoff, optimistic
  updates, protection of confirmed pushes, conflict resolution.
- `src/light_group.rs`, `src/light_group_linear.rs`, `src/button_controller.rs`,
  `src/scene_controller.rs`, `src/manager.rs`: virtual devices and their manager.
- `src/api.rs`, `src/server.rs`: request handling and server setup from configuration.
- `src/dirigera.rs`, `src/dummy.rs`, `src/gateway.rs`, `src/event_producer.rs`: the hub's data
  model, a simulated gateway, and simulated events.
- `src/tcp.rs`, `src/client.rs`, `src/tui.rs`, `src/screens.rs`, `src/screen_config.rs`,
  `src/config.rs`: wire framing, client decisions, terminal dashboard logic, screen configuration.
- `src/cli.rs`: the command-line client's decisions: the light update it sends, the device
  listing rows, the state descriptions and event lines it prints.
- `src/binary32.rs`: single-precision rounding modelled exactly on integers, which the
  brightness curves and linear ranges compute with.
- `src/json.rs`, `src/text.rs`, `src/events.rs`: JSON values, text helpers, the event history.
  Times are passed in as milliseconds; the library never reads the clock.

Laws that relate several operations are public proof functions whose names begin with `law_`.
