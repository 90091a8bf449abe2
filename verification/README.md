# owl

The rules of an LLM inference engine, verified with Verus: what its layers load and
compute, how weights are laid out for quantized kernels, how graphs are captured and
replayed, and how runners are talked to. Devices, sockets and floating point stay
outside; the library works on shapes, integers, bits and bytes, and plans the steps
that a device takes.

- `src/graph.rs`, `src/session.rs`, `src/runner.rs`: the capture governor, sessions of
  slots and outputs, frames, identifiers and the answers of runners.
- `src/kernels/`: launch sizes, matrix orders, and the Marlin weight and scale layouts.
- `src/config.rs`, `src/models/`: the settings of a checkpoint, the Qwen3.5 model, its
  layers, and what they load.
- `src/f16c.rs`: conversions between single, half and brain floats, on bits.
- `app/`: error texts, wire formats, local sockets, and the loops that drive a device.
- `tests/`: the library on concrete values.

Public proof functions named `law_..` state what holds across functions. Trusted are
the Base64 engine and the parallel map behind `runner` and `kernels::marlin::repack`;
each wrapper says what it claims.
