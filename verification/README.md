# fand

A Linux fan-control daemon (hwmon fans, k10temp and NVML temperature
inputs), its command-line client and the config-text edits its clients
make. The decision logic is a library verified with Verus; the daemon and
client programs around it do the file, socket, NVML and floating-point work.

## Layout

- `src/` — the verified library.
  - `config`, `validate`, `safety`: the configuration model, its full
    validation (every error collected), and what a config that passes
    validation guarantees (proved equivalent).
  - `curve_graph`, `eval`: mix-membership reachability and cycle detection,
    resolving a channel's curve into an evaluation plan, mix folding.
  - `ramp`, `hysteresis`, `trigger`, `smoothing`, `control`: the per-tick
    state machines (ramp, input filter, trigger latch), overrides and the
    per-channel tick.
  - `engine`, `failsafe`, `hwmon`: startup and hot-reload decisions (which
    sensors and chips are needed, the order of a reload's writes), the
    firmware-restore list, hwmon attribute paths and readings.
  - `proto`, `server`, `client`, `gui_state`: the socket protocol's
    decisions on both ends and the GUI's config-cache policy.
  - `curve_edit`, `channel_edit`, `policy_edit`, `edits`, `toml_doc`:
    edits of the config text through `toml_edit`, each stated as exactly
    which entries of the parsed document it changes (that comments and
    formatting elsewhere survive the printing is `toml_edit`'s doing, and
    is checked by the tests, not proved).
  - `cli`, `text`: command-line helpers and the character-level parsing and
    formatting they share.
- `tests/` — tests of the library.
- `app/` — the `fand` daemon (and `fanctl`, when invoked by that name):
  sysfs and NVML I/O, the socket server and client, the control loop,
  serde forms of the config and protocol, and the floating-point curve
  evaluation.
