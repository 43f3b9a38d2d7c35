# ili9341_buffered

A buffered driver for the ILI9341 (and ILI9340C) TFT LCD controller, verified
with Verus.

- `src/` is the verified library: the controller's opcodes (`command`), the
  `Interface` trait and the error type (`interface`), the framebuffer model
  (`frame`), the driver itself (`display`), the power-on sequence (`init`) and
  the SPI request plan (`spi`).
- `app/` drives real hardware through embedded-hal (reset pin, delays, SPI bus
  and pins) and plugs the display into embedded-graphics.
- `tests/` exercises the library with a recording interface.
