use dedich32::protocol::{
    parse_read_setup, parse_rw_cmd_v2, spi_speed_hz, BulkOperation, ReadSetup, CMD_CHECK_SOCKET,
    CMD_GET_BUTTON, CMD_GET_UID, CMD_IO_MODE, CMD_READ, CMD_READ_EEPROM, CMD_READ_FPGA_VERSION,
    CMD_READ_PROG_INFO, CMD_SET_CS, CMD_SET_IO_LED, CMD_SET_SPI_CLK, CMD_SET_VCC,
    CMD_SET_VOLTAGE, CMD_TRANSCEIVE, CMD_WRITE,
};
use dedich32::usb_handler::{
    DediprogHandler, FlashAction, InResponse, Leds, OutResponse, Request, RequestType,
};

fn vendor(request: u8, value: u16, length: u16) -> Request {
    Request { request_type: RequestType::Vendor, request, value, index: 0, length }
}

#[test]
fn new_handler_state() {
    let h = DediprogHandler::new(Leds::new());
    assert!(!h.is_configured());
    assert_eq!(h.leds(), Leds { pass: false, busy: false, error: false });
}

#[test]
fn configured_flag() {
    let mut h = DediprogHandler::new(Leds::new());
    h.configured(true);
    assert!(h.is_configured());
    h.configured(false);
    assert!(!h.is_configured());
}

#[test]
fn transceive_read_back() {
    let mut h = DediprogHandler::new(Leds::new());
    let (resp, action) = h.control_out(vendor(CMD_TRANSCEIVE, 1, 1), &[0x9F]);
    assert_eq!(resp, Some(OutResponse::Accepted));
    assert_eq!(action, FlashAction::Transceive { read_back: true });
    let mut read = [0u8; 16];
    read[..3].copy_from_slice(&[0xEF, 0x40, 0x18]);
    h.record_transceive_read(&read);
    let mut buf = [0xAAu8; 128];
    let r = h.control_in(vendor(CMD_TRANSCEIVE, 0, 3), &mut buf);
    assert_eq!(r, Some(InResponse::Accepted { len: 3 }));
    assert_eq!(&buf[..4], &[0xEF, 0x40, 0x18, 0xAA]);
}

#[test]
fn transceive_in_capped_at_sixteen() {
    let mut h = DediprogHandler::new(Leds::new());
    h.control_out(vendor(CMD_TRANSCEIVE, 1, 1), &[0x05]);
    h.record_transceive_read(&[3u8; 16]);
    let mut buf = [0u8; 64];
    assert_eq!(
        h.control_in(vendor(CMD_TRANSCEIVE, 0, 64), &mut buf),
        Some(InResponse::Accepted { len: 16 })
    );
}

#[test]
fn transceive_write_only_returns_nothing() {
    let mut h = DediprogHandler::new(Leds::new());
    let (resp, action) = h.control_out(vendor(CMD_TRANSCEIVE, 0, 1), &[0x06]);
    assert_eq!(resp, Some(OutResponse::Accepted));
    assert_eq!(action, FlashAction::Transceive { read_back: false });
    let mut buf = [0u8; 64];
    assert_eq!(
        h.control_in(vendor(CMD_TRANSCEIVE, 0, 8), &mut buf),
        Some(InResponse::Accepted { len: 0 })
    );
}

#[test]
fn transceive_bad_lengths_rejected() {
    let mut h = DediprogHandler::new(Leds::new());
    assert_eq!(
        h.control_out(vendor(CMD_TRANSCEIVE, 1, 0), &[]),
        (Some(OutResponse::Rejected), FlashAction::NoOp)
    );
    assert_eq!(
        h.control_out(vendor(CMD_TRANSCEIVE, 1, 17), &[0u8; 17]),
        (Some(OutResponse::Rejected), FlashAction::NoOp)
    );
}

#[test]
fn non_vendor_requests_ignored() {
    let mut h = DediprogHandler::new(Leds::new());
    let req = Request { request_type: RequestType::Standard, request: CMD_TRANSCEIVE, value: 1, index: 0, length: 1 };
    assert_eq!(h.control_out(req, &[0x9F]), (None, FlashAction::NoOp));
    let mut buf = [0u8; 8];
    assert_eq!(h.control_in(req, &mut buf), None);
}

#[test]
fn prog_info_string() {
    let h = DediprogHandler::new(Leds::new());
    let mut buf = [0u8; 128];
    assert_eq!(
        h.control_in(vendor(CMD_READ_PROG_INFO, 0, 32), &mut buf),
        Some(InResponse::Accepted { len: 24 })
    );
    assert_eq!(&buf[..24], b"SF600 V:7.2.22 S6B000001");
    let mut small = [0u8; 5];
    assert_eq!(
        h.control_in(vendor(CMD_READ_PROG_INFO, 0, 32), &mut small),
        Some(InResponse::Accepted { len: 5 })
    );
    assert_eq!(&small, b"SF600");
}

#[test]
fn eeprom_serial() {
    let h = DediprogHandler::new(Leds::new());
    let mut buf = [0xFFu8; 32];
    assert_eq!(
        h.control_in(vendor(CMD_READ_EEPROM, 0, 16), &mut buf),
        Some(InResponse::Accepted { len: 16 })
    );
    assert_eq!(&buf[..3], &[1, 0, 0]);
    assert_eq!(buf[16], 0xFF);
}

#[test]
fn one_byte_replies() {
    let h = DediprogHandler::new(Leds::new());
    let mut buf = [0u8; 4];
    assert_eq!(h.control_in(vendor(CMD_SET_VOLTAGE, 0, 1), &mut buf), Some(InResponse::Accepted { len: 1 }));
    assert_eq!(buf[0], 0x6F);
    assert_eq!(h.control_in(vendor(CMD_GET_BUTTON, 0, 1), &mut buf), Some(InResponse::Accepted { len: 1 }));
    assert_eq!(buf[0], 0x01);
    assert_eq!(h.control_in(vendor(CMD_CHECK_SOCKET, 0, 1), &mut buf), Some(InResponse::Accepted { len: 1 }));
    assert_eq!(buf[0], 0x00);
    let mut empty: [u8; 0] = [];
    assert_eq!(h.control_in(vendor(CMD_SET_VOLTAGE, 0, 1), &mut empty), Some(InResponse::Rejected));
    assert_eq!(h.control_in(vendor(CMD_GET_BUTTON, 0, 1), &mut empty), Some(InResponse::Rejected));
    assert_eq!(h.control_in(vendor(CMD_CHECK_SOCKET, 0, 1), &mut empty), Some(InResponse::Accepted { len: 0 }));
}

#[test]
fn uid_and_fpga_version() {
    let h = DediprogHandler::new(Leds::new());
    let mut buf = [0u8; 16];
    assert_eq!(h.control_in(vendor(CMD_GET_UID, 0, 8), &mut buf), Some(InResponse::Accepted { len: 8 }));
    assert_eq!(&buf[..8], &[0xDE, 0xD1, 0x01, 0xC0, 0x00, 0x00, 0x00, 0x01]);
    assert_eq!(h.control_in(vendor(CMD_READ_FPGA_VERSION, 0, 2), &mut buf), Some(InResponse::Accepted { len: 2 }));
    assert_eq!(&buf[..2], &[0x00, 0x01]);
    assert_eq!(h.control_in(vendor(CMD_READ_FPGA_VERSION, 0, 1), &mut buf), Some(InResponse::Accepted { len: 1 }));
}

#[test]
fn read_back_survives_other_requests() {
    let mut h = DediprogHandler::new(Leds::new());
    h.control_out(vendor(CMD_TRANSCEIVE, 1, 1), &[0x9F]);
    h.record_transceive_read(&[0x42u8; 16]);
    h.control_out(vendor(CMD_SET_IO_LED, 0x0600, 0), &[]);
    h.control_out(vendor(CMD_SET_SPI_CLK, 2, 0), &[]);
    assert_eq!(h.pending_read_len(), 16);
    let mut buf = [0u8; 4];
    assert_eq!(h.control_in(vendor(CMD_TRANSCEIVE, 0, 4), &mut buf), Some(InResponse::Accepted { len: 4 }));
    assert_eq!(buf, [0x42u8; 4]);
}

#[test]
fn unknown_in_request_not_handled() {
    let h = DediprogHandler::new(Leds::new());
    let mut buf = [0u8; 8];
    assert_eq!(h.control_in(vendor(0x7E, 0, 8), &mut buf), None);
}

#[test]
fn unknown_out_request_accepted() {
    let mut h = DediprogHandler::new(Leds::new());
    assert_eq!(h.control_out(vendor(0x7E, 0, 0), &[]), (Some(OutResponse::Accepted), FlashAction::NoOp));
    assert_eq!(h.control_out(vendor(CMD_SET_VCC, 0x10, 0), &[]), (Some(OutResponse::Accepted), FlashAction::NoOp));
}

#[test]
fn io_mode_single_lane_only() {
    let mut h = DediprogHandler::new(Leds::new());
    assert_eq!(h.control_out(vendor(CMD_IO_MODE, 0, 0), &[]).0, Some(OutResponse::Accepted));
    assert_eq!(h.control_out(vendor(CMD_IO_MODE, 2, 0), &[]).0, Some(OutResponse::Rejected));
}

#[test]
fn leds_active_low_in_high_byte() {
    let mut h = DediprogHandler::new(Leds::new());
    // Busy only: (0b010 ^ 0b111) << 8
    h.control_out(vendor(CMD_SET_IO_LED, 0x0500, 0), &[]);
    assert_eq!(h.leds(), Leds { pass: false, busy: true, error: false });
    h.control_out(vendor(CMD_SET_IO_LED, 0x0000, 0), &[]);
    assert_eq!(h.leds(), Leds { pass: true, busy: true, error: true });
    h.control_out(vendor(CMD_SET_IO_LED, 0x0700, 0), &[]);
    assert_eq!(h.leds(), Leds { pass: false, busy: false, error: false });
}

#[test]
fn chip_select() {
    let mut h = DediprogHandler::new(Leds::new());
    assert_eq!(h.control_out(vendor(CMD_SET_CS, 0, 0), &[]).1, FlashAction::ChipSelect { asserted: true });
    assert_eq!(h.control_out(vendor(CMD_SET_CS, 1, 0), &[]).1, FlashAction::ChipSelect { asserted: false });
}

#[test]
fn spi_clock_presets() {
    let mut h = DediprogHandler::new(Leds::new());
    assert_eq!(h.control_out(vendor(CMD_SET_SPI_CLK, 0, 0), &[]).1, FlashAction::SetFrequency { hz: 24_000_000 });
    assert_eq!(h.control_out(vendor(CMD_SET_SPI_CLK, 2, 0), &[]).1, FlashAction::SetFrequency { hz: 12_000_000 });
    assert_eq!(h.control_out(vendor(CMD_SET_SPI_CLK, 7, 0), &[]).1, FlashAction::SetFrequency { hz: 375_000 });
    assert_eq!(
        h.control_out(vendor(CMD_SET_SPI_CLK, 9, 0), &[]),
        (Some(OutResponse::Accepted), FlashAction::SetFrequency { hz: 24_000_000 })
    );
    assert_eq!(spi_speed_hz(1), 8_000_000);
    assert_eq!(spi_speed_hz(4), 2_180_000);
    assert_eq!(spi_speed_hz(0xFFFF), 24_000_000);
}

fn setup(count: u16, mode: u8, opcode: u8, address: u32) -> [u8; 10] {
    let c = count.to_le_bytes();
    let a = address.to_le_bytes();
    [c[0], c[1], 0, mode, opcode, 0, a[0], a[1], a[2], a[3]]
}

#[test]
fn read_setup_fast_read() {
    let mut h = DediprogHandler::new(Leds::new());
    let data = setup(4, 2, 0, 0x0001_0000);
    let (resp, action) = h.control_out(vendor(CMD_READ, 0, 10), &data);
    assert_eq!(resp, Some(OutResponse::Accepted));
    assert_eq!(
        action,
        FlashAction::StartBulk {
            op: BulkOperation::Read { address: 0x0001_0000, block_count: 4, opcode: 0x0B, addr_len: 3, dummy_bytes: 1 }
        }
    );
}

#[test]
fn read_setup_standard_and_4byte() {
    assert_eq!(
        parse_read_setup(&setup(1, 1, 0, 0x20)),
        Some(ReadSetup { address: 0x20, block_count: 1, opcode: 0x03, mode_byte: 1, addr_len: 3, dummy_cycles: 0 })
    );
    assert_eq!(
        parse_read_setup(&setup(1, 5, 0x0C, 0x0100_0000)),
        Some(ReadSetup { address: 0x0100_0000, block_count: 1, opcode: 0x0C, mode_byte: 5, addr_len: 4, dummy_cycles: 8 })
    );
    assert_eq!(parse_read_setup(&setup(1, 9, 0, 0)), None);
}

#[test]
fn read_setup_short_packet_rejected() {
    let mut h = DediprogHandler::new(Leds::new());
    let (resp, action) = h.control_out(vendor(CMD_READ, 0, 9), &[0u8; 9]);
    assert_eq!(resp, Some(OutResponse::Rejected));
    assert_eq!(action, FlashAction::NoOp);
}

#[test]
fn write_setup_defaults() {
    let mut h = DediprogHandler::new(Leds::new());
    let (resp, action) = h.control_out(vendor(CMD_WRITE, 0, 10), &setup(2, 1, 0, 0x1000));
    assert_eq!(resp, Some(OutResponse::Accepted));
    assert_eq!(
        action,
        FlashAction::StartBulk { op: BulkOperation::Write { address: 0x1000, block_count: 2, opcode: 0x02, addr_len: 3 } }
    );
    let (_, action4) = h.control_out(vendor(CMD_WRITE, 0, 14), &setup(2, 11, 0x12, 0x0200_0000));
    assert_eq!(
        action4,
        FlashAction::StartBulk { op: BulkOperation::Write { address: 0x0200_0000, block_count: 2, opcode: 0x12, addr_len: 4 } }
    );
}

#[test]
fn rw_header_decoding() {
    assert_eq!(parse_rw_cmd_v2(&setup(0x1234, 3, 0x0B, 0xA1B2_C3D4)), Some((0x1234, 3, 0x0B, 0xA1B2_C3D4)));
    assert_eq!(parse_rw_cmd_v2(&[0u8; 5]), None);
}
