# pmu_programmer

Programming and inspection of display PMICs (EK86317A, LP6281)
over I2C bridges (FTDI MPSSE and CH34x/CH347), written in Verus.

- `src/` is the verified library: chip descriptions and register maps,
  firmware images and their BIN export, the chip drivers over an abstract
  I2C bus, the FTDI MPSSE I2C engine (command bytes built with
  `ftdi-mpsse`), the CH347 transfer framing, device-ID parsing, and a
  simulated bridge. Each public function states its result in its contract;
  the laws that span several functions are public proof functions (names
  starting with `lemma_`).
- `app/` is the unverified shell: async commands, the hardware transports
  (libftd2xx, the CH347 driver libraries), voltage conversions in floating
  point, and serde/thiserror copies of the library's result types.
- `tests/` runs the library on concrete values, most of them on the
  simulated bridge.
