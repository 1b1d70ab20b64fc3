use dedich32::spi_flash::{
    erase_busy_duration, next_page_address, program_command, read_command, target_frequency,
    write_in_progress, BusyWait, BusyWindow, PageWalk, SPI_CMD_READ_STATUS, SPI_STATUS_WIP,
};

#[test]
fn erase_durations() {
    assert_eq!(erase_busy_duration(&[0x20, 0, 0, 0]), Some(250));
    assert_eq!(erase_busy_duration(&[0x21]), Some(250));
    assert_eq!(erase_busy_duration(&[0x52]), Some(750));
    assert_eq!(erase_busy_duration(&[0x5c]), Some(750));
    assert_eq!(erase_busy_duration(&[0xd8]), Some(1_500));
    assert_eq!(erase_busy_duration(&[0xdc]), Some(1_500));
    assert_eq!(erase_busy_duration(&[0x60]), Some(60_000));
    assert_eq!(erase_busy_duration(&[0xc7]), Some(60_000));
    assert_eq!(erase_busy_duration(&[0x06]), None);
    assert_eq!(erase_busy_duration(&[]), None);
}

#[test]
fn frequency_is_clamped() {
    assert_eq!(target_frequency(0), 1);
    assert_eq!(target_frequency(12_000_000), 12_000_000);
    assert_eq!(target_frequency(48_000_000), 24_000_000);
}

#[test]
fn read_command_three_byte_address() {
    assert_eq!(read_command(0x0B, 0x0012_3456, 3, 1), vec![0x0B, 0x12, 0x34, 0x56, 0x00]);
}

#[test]
fn read_command_four_byte_address() {
    assert_eq!(read_command(0x0C, 0x8912_3456, 4, 1), vec![0x0C, 0x89, 0x12, 0x34, 0x56, 0x00]);
}

#[test]
fn read_command_longest() {
    assert_eq!(read_command(0x03, 0x0102_0304, 4, 5).len(), 10);
}

#[test]
fn program_command_bytes() {
    assert_eq!(program_command(0x02, 0x00AB_CDEF, 3), vec![0x02, 0xAB, 0xCD, 0xEF]);
    assert_eq!(program_command(0x12, 0x01AB_CDEF, 4), vec![0x12, 0x01, 0xAB, 0xCD, 0xEF]);
}

#[test]
fn wip_bit() {
    assert!(write_in_progress(0x01));
    assert!(write_in_progress(0x03));
    assert!(!write_in_progress(0x02));
    assert!(!write_in_progress(0x00));
}

#[test]
fn page_addresses_wrap() {
    assert_eq!(next_page_address(0x1000), 0x1100);
    assert_eq!(next_page_address(0xFFFF_FF80), 0x80);
}

#[test]
fn erase_forces_status_reads_until_window_ends() {
    let mut w = BusyWindow::new();
    w.after_write(&[0x20, 0x00, 0x10, 0x00], 1_000);
    let mut status = [0u8; 2];
    assert!(w.answer_status(&[SPI_CMD_READ_STATUS], &mut status, 2_000));
    assert_eq!(status, [SPI_STATUS_WIP; 2]);
    assert!(w.forces_status(&[SPI_CMD_READ_STATUS], 250_999));
    assert!(!w.forces_status(&[SPI_CMD_READ_STATUS], 251_000));
    assert!(!w.forces_status(&[0x9F], 2_000));
}

#[test]
fn non_erase_write_opens_no_window() {
    let mut w = BusyWindow::new();
    w.after_write(&[0x06], 1_000);
    let mut status = [7u8; 1];
    assert!(!w.answer_status(&[SPI_CMD_READ_STATUS], &mut status, 1_001));
    assert_eq!(status, [7u8]);
}

#[test]
fn busy_wait_steps() {
    let mut w = BusyWindow::new();
    assert_eq!(w.wait_step(0), BusyWait::Ready);
    w.after_write(&[0xd8], 0);
    assert_eq!(w.wait_step(1_000), BusyWait::Poll { after_ms: 1 });
    assert_eq!(w.wait_step(1_500_000), BusyWait::Settle { after_ms: 25 });
    assert_eq!(w.wait_step(1_500_001), BusyWait::Ready);
}

#[test]
fn page_walk_visits_each_block() {
    let mut walk = PageWalk::new(0xFFFF_FE00, 3);
    assert_eq!(walk.next(), Some(0xFFFF_FE00));
    assert_eq!(walk.next(), Some(0xFFFF_FF00));
    assert_eq!(walk.next(), Some(0x0000_0000));
    assert_eq!(walk.next(), None);
    assert_eq!(walk.next(), None);
}
