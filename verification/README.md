# deimos

The decisions of a data-acquisition controller, written in Rust and verified with
[Verus](https://github.com/verus-lang/verus): units, row and packet formats, the
state machines of peripherals, instruments and sockets, and the calibration of
the rev7 board.

- `src/` is the library. Every function states its behaviour in `requires` and
  `ensures` clauses that Verus proves; laws that relate several functions stand
  beside them as proof functions named `law_*`.
- `app/` is the outside of the library: sockets, threads, files, the database and
  HTTP clients, the instruments' connections, serialized settings and
  floating-point numerics. It performs the actions that the library decides on.
- `tests/` runs the library from outside.

A floating-point value is held in `src/` as a `binary64::Real`: its bits, with the
order and the predicates of the format. Sums and products of such values are formed
in `app/`.

What `src/` takes from other crates without proof is declared next to its use:
`text.rs` (std), `json.rs` (`serde_json`), `datetime.rs` (`chrono`),
`dispatcher/wire.rs` (`postcard`) and `dispatcher/csv.rs` (`csv`).
