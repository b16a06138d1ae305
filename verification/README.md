# midair_proto

The protocol and the policies of a GPS tracker board - a receiver in, positions
out over 915 MHz LoRa, and BLE to an app - as a library verified with Verus.

Everything in `src/` is decided without the hardware: wire formats, the config
file and its parser, the hop clock, who is heard and who is forgotten, when a
beacon goes out, what a config write changes, when the board sleeps. Each
function states what it returns or changes over a mathematical model of its
data; what holds across functions is stated in the proof functions named
`law_...`.

| Directory | What |
|-|-|
| `src/` | The verified library. `src/lib.rs` lists the modules. |
| `tests/` | Scenarios and exact values, one file per module. |
| `app/` | Ordinary Rust around it: bearings in floating point, the position protocol's packets, reference vectors for a simulator. |

One function is trusted rather than proved: `text::utf8`, which calls
`core::str::from_utf8`.

`app/position.rs` calls the `gps-proto` crate, which speaks the BLE position
protocol and is a sibling of this one. The library does not need it: an ack is
an `ack::Ack` here, and a position a `lora::Position`.
