# RF-EQ

An eight-band parametric equaliser for RackForge: high-pass and low-pass
filters, low and high shelves, four peaks, output trim and bypass.

The crate is in two parts.

* `src/` is the verified library: everything the equaliser *decides*. The
  parameter contract and its table (`contract`, `index`), the settings block
  and how a host value is accepted into it (`settings`), the factory
  settings (`preset`), the saved-state format (`state`), the engine's
  decisions that are not arithmetic (`engine`), and how a host block is
  routed onto the engine (`routing`). Values are single- and
  double-precision numbers held as their IEEE 754 bit patterns; `ieee`
  answers what the contract asks of them (finite, zero, whole, ordered,
  narrowed) on the encoding.
* `app/` is the signal path and the bench: the biquad designs, the ramps,
  the engine that runs them, the measurement, the WAV bench and the
  RackForge adapter. It is floating-point arithmetic and I/O, and takes
  every decision from the library.
