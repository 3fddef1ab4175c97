# host

Host-side logic of the catch robot, written in Verus: the text protocols of
the boards (cctl, svmd, the serial servo board and DCMD over cctl's CAN
gateway), the bench test sessions of the generic firmware, the individual
output tests, the operator's request types, the right to operate, and the
decisions of the worker that owns the machine link (the queue of operator
requests, which requests it takes, how it stops and holds, whether the machine
may drive, the watch over the machine link, the gamepad's stop button and
layers, the operator's axis input, the confirmation of the boards' parameters, the communication
health of each CAN bus and device, the manual origin setting, the gamepad's
preparation guide, the match preparation, the bonus hand's cycle, the
individual tests and the management of the STS servos).

- `src/` is the verified library. Every public function states its result in
  its `ensures`; the properties that span calls (a refused command changes
  nothing, `stop` reaches every board, outputs expire on their own, a key parses
  back to its target, sign-magnitude values round-trip, stop always passes the
  authority check, ...) are public proof functions, mostly in
  `src/diagnostics/session_laws.rs`.
- `tests/` runs the library on concrete values.
- `app/` is the command-line firmware test around the library: the serial
  link, standard input, the serialized forms of the library's types, and what
  is computed in floating point.

Times are milliseconds in `u64`. Test values typed by the operator are read
with a float's grammar (sign, point, exponent) into exact decimals: values an
`f32` would round to infinity are refused as not finite, finite values of at
least 10^18 fall outside every board's range, and values that need more than
eighteen digits below 10^18 are refused.

Sequence runs are planned here (which configured value goes to which axis, in
which order, and which step is refused); the positions themselves, the homing
of the arm, the end effector's motion and the motion profiles are floating
point work of the machine model and are not part of this library.
