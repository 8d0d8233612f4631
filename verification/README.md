# ptz_controller

Firmware core of a controller for an antenna rotator. The controller takes target angles
over an EASYCOMM serial port or from two potentiometers, sends them to the rotator in
numbered and checksummed radio packets, and shows what the rotator reports on a small
display.

- `src/` is the library, verified with Verus: packets, the radio task, the command port, the
  averaging of the potentiometers, the start number, text drawing and screen layout. Each
  function states what it does in `requires` and `ensures`; public proof functions state
  what holds of the library as a whole.
- `app/` is the firmware around it for an STM32F411 board: ports, pins, the radio module's
  driver, the display, and the angles in floating point.
- `tests/` runs the library on concrete values.

The library calls `crc`, `heapless`, `oorandom` and `embedded-graphics` through small
functions marked `external_body`; the comment above each says what is taken for granted.
