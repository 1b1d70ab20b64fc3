//! Verified core of a CH32V307 firmware that emulates a DediProg SF600 SPI
//! flash programmer over USB, plus its auxiliary UART / board-control link.
//!
//! Everything that decides something lives here; the hardware glue (SPI,
//! GPIO, USB endpoints, timers) drives these functions and performs the
//! actions they return.

pub mod aux_protocol;
pub mod aux_usb;
pub mod bulk;
pub mod protocol;
pub mod spi_flash;
pub mod usb_handler;
