# roomci

`roomci` is a QA contract emulator for MQTT-based edge, smart-home and
building-automation systems. It runs scenarios against emulated devices
(MQTT brokers, Modbus registers, lighting, contacts, edge servers, ops
alerting), checks adapter contracts, and reports whether each assertion
held.

The library is written in Verus: every function in `src/` carries a
`requires`/`ensures` contract that Verus proves.

## Layout

- `src/` — the verified library: scenario and adapter-contract validation,
  the run timeline and its state machine, the device models, assertion
  evaluation, the report formats (JSON, Markdown, JUnit, timelines), the
  localhost control API's request handling, and the laws that tie them
  together (public `law_*` proof functions).
- `tests/` — tests of the library on concrete values.
- `app/` — the `roomci` command-line program: argument parsing, reading
  scenario and contract files, floating-point checks, the HTTP listener and
  writing reports. It hands the library plain values and takes plain values
  back.

Run `roomci validate <scenario.yaml>` to check a scenario and
`roomci run <scenario.yaml>` to execute it.
