# fsw_lib

Drivers for the flight computer's I2C peripherals (torque coil driver, burn
wire driver, real-time clock, light sensor, power monitor, fuel gauge), the SD
card file timestamps, and the bookkeeping of a flat-sat checkout, written in
Verus.

Every driver operation is a *plan*: a list of bus operations
(`bus::BusOp`) whose contents the driver's contract states exactly. A
`bus::Runner` walks a plan one transfer at a time, skipping to the next group
after a failed transfer and keeping the first error. Decoding the bytes read
back is done by verified functions too. On a model of a register device
(`bus::apply_ops`, `bus::plan_reads`) the drivers' laws are proved: what a
setter writes is what its getter reads back, `init` touches only the intended
bits, a burn always ends with the driver disabled, and a runner driven by such
a device performs exactly its plan.

Layout:

- `src/` the verified library (`bus`, `calendar`, `checkout`, `drivers::*`).
- `tests/` tests that drive plans through the runner against simulated buses.
- `app/` the async drivers on an `embedded_hal_async` bus that run the plans,
  the floating-point scaling of readings, the SD card storage on
  embedded-sdmmc, and the bus and clock work of the VL53L4CD driver, of the
  light sensor's `init` and of the flat-sat checkout, whose steps the
  library's step functions (`checkout::*_check_step`,
  `opt4003::OPT4003::init_next`, `vl53l4cd::read_distance_step`) decide.
