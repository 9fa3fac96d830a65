# pith

The verified logic of a set of sim-racing devices: a dashboard unit, a handbrake and a
motor pedal, with the host side that talks to them.

- `src/` holds the library. Every function states in its contract what it returns or
  changes, and Verus proves it. Properties of several functions together stand as public
  proof functions at the end of each module.
- `tests/` runs the library on concrete values.
- `app/` is the program around it: the command-line tools, USB, serial and network I/O, the
  device loops over small hardware traits, and the floating-point control of the pedal.

What is taken on trust is marked `external_body`, `assume_specification` or
`external_type_specification`: reading JSON through `serde_json`, and three functions of the
standard library on strings. Each says what it claims of the function it calls.
