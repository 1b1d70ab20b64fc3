# dedich32

Firmware core for a CH32V307 board that presents itself over USB High Speed
as a DediProg SF600 SPI flash programmer (firmware 7.2.22), with a second
interface carrying a UART bridge and board reset / power control in 64-byte
packets.

`src/` is the verified library (Verus):

- `protocol` — SF600 vendor request codes, SPI clock presets, READ / WRITE
  setup packet decoding.
- `usb_handler` — the vendor control-request handler (`DediprogHandler`):
  answers IN requests, updates its state on OUT requests and returns the
  flash action to perform.
- `spi_flash` — flash command framing, SPI clock target, status WIP test,
  bulk-write page walk and the busy window that follows an erase.
- `bulk` — the USB side of a bulk transfer, block by block.
- `aux_protocol`, `aux_usb` — the auxiliary packet format, command decisions,
  response framing and UART batching.

`app/` is the firmware around it: HAL setup, SPI / GPIO / USB endpoint I/O
and the async tasks. It needs the CH32 HAL and a RISC-V embassy executor.

`tests/` exercises the library on the host.
