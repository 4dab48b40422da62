# flint_drivers

Drivers for a small operating system on the ESP32: byte-oriented buses, a USB serial
device, device drivers that know a part and nothing of the board, and the chip's own
peripherals. The library decides and computes; it touches no hardware. What has to be
done on the hardware comes back as a plan of plain values (register accesses, transfers,
commands), and what the hardware says goes in as arguments. Every function is verified
by Verus against its contract.

- `src/bus`: how a list of operations becomes transfers on a controller.
- `src/usb`: the CDC device, its descriptors, its byte queues, the service protocol, and
  what holds of the device as a whole (`laws.rs`).
- `src/logical`: power management, sensors, displays, LEDs.
- `src/esp32`: the peripherals, the flash, the window without a cache, and how a script
  of the flash controller is run in it.
- `src/math.rs`: arithmetic shared by the rest.
- `tests`: what the library does on concrete values.
- `app`: the plans performed on a chip, with its loops, waits and floating point.
