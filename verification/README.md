# agl_slint_cluster

The logic of an instrument cluster: where its signals come from and what it shows
of them. Signals come from a built-in drive cycle, from a CAN bus, from a Kuksa
databroker (VSS) or from an OBD-II dongle (ELM327); `CLUSTER_SOURCE` selects one.

- `src/` is the library, verified with Verus. It opens no socket, reads no clock
  and draws no widget: it encodes and decodes, maps, formats and decides.
- `app/` is the program around it: sockets, threads, the gRPC client, the serial
  and Bluetooth links, the window.
- `tests/` runs the library, the calls into outside crates included.

## Quantities

Every physical quantity is an integer count of millionths of its unit
(`fixed::Micro`), so 12.5 km/h is `12_500_000`. Floating point appears only in
`app/`, where readings come in and widgets are set. Where a quantity is cut or
rounded, for a text, a CAN field or a VSS type, that is done as in single
precision: from the nearest number of 24 significant bits, and with products
rounded to as many.

## Modules

| Module | What it holds |
|--------|---------------|
| `telemetry` | one frame of vehicle signals, and the trait of a source |
| `can`, `bus` | the CAN frames of a `Telemetry`, and frames of the `socketcan` crate |
| `kuksa` | the mapping to and from VSS signals |
| `obd` | links, PIDs, and the ELM327 conversation as a state machine |
| `sim` | the drive cycle |
| `display` | what the widgets show |
| `source` | which source is meant, and which failures are reported |
| `fixed`, `text` | rounding and saturation; characters, trimming, searching |
| `can_laws`, `street_laws`, `kuksa_laws`, `obd_laws` | what is proved of all that together |

## What is not proved

The contracts of calls into `socketcan`, `chrono` and the standard library are
taken on trust; each stands on a small function marked `external_body`, or on an
`assume_specification`, with a comment that says what is claimed.
