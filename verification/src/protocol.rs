//! The SF600 vendor protocol on interface 0: control request codes, the
//! SPI clock presets, and the setup packets of the bulk READ / WRITE
//! commands.

use vstd::prelude::*;

verus! {

pub const CMD_TRANSCEIVE: u8 = 0x01;
pub const CMD_SET_VPP: u8 = 0x03;
pub const CMD_SET_TARGET: u8 = 0x04;
pub const CMD_READ_EEPROM: u8 = 0x05;
pub const CMD_SET_IO_LED: u8 = 0x07;
pub const CMD_READ_PROG_INFO: u8 = 0x08;
pub const CMD_SET_VCC: u8 = 0x09;
pub const CMD_SET_STANDALONE: u8 = 0x0A;
pub const CMD_SET_VOLTAGE: u8 = 0x0B;
pub const CMD_GET_BUTTON: u8 = 0x11;
pub const CMD_GET_UID: u8 = 0x12;
pub const CMD_SET_CS: u8 = 0x14;
pub const CMD_IO_MODE: u8 = 0x15;
pub const CMD_READ_FPGA_VERSION: u8 = 0x1C;
pub const CMD_SET_HOLD: u8 = 0x1D;
pub const CMD_READ: u8 = 0x20;
pub const CMD_WRITE: u8 = 0x30;
pub const CMD_SET_SPI_CLK: u8 = 0x61;
pub const CMD_CHECK_SOCKET: u8 = 0x62;

/// Page program opcode used when a WRITE setup leaves the opcode at zero.
pub const DEFAULT_PROGRAM_OPCODE: u8 = 0x02;

/// Length of the fixed part of a READ / WRITE setup packet. Protocol V3
/// hosts send longer setup packets (address width and dummy cycles, or page
/// size, after byte 10); only these first ten bytes are read, the address
/// width and dummy cycles come from the read mode, and the rest is ignored.
pub const SETUP_PACKET_LEN: usize = 10;

/// A bulk transfer requested by the host, run by the bulk worker.
#[derive(Clone, Copy, Debug, PartialEq, Eq, Structural)]
pub enum BulkOperation {
    Read { address: u32, block_count: u16, opcode: u8, addr_len: u8, dummy_bytes: u8 },
    Write { address: u32, block_count: u16, opcode: u8, addr_len: u8 },
}

impl BulkOperation {
    /// Address width is 3 or 4 bytes, and the read command (opcode, address,
    /// dummy bytes) fits the 10-byte command buffer of the flash driver.
    pub open spec fn wf(self) -> bool {
        match self {
            BulkOperation::Read { addr_len, dummy_bytes, .. } => {
                &&& (addr_len == 3 || addr_len == 4)
                &&& 1 + addr_len + dummy_bytes <= 10
            },
            BulkOperation::Write { addr_len, .. } => addr_len == 3 || addr_len == 4,
        }
    }
}

/// A decoded READ setup packet.
#[derive(Clone, Copy, Debug, PartialEq, Eq, Structural)]
pub struct ReadSetup {
    pub address: u32,
    pub block_count: u16,
    pub opcode: u8,
    pub mode_byte: u8,
    pub addr_len: u8,
    pub dummy_cycles: u8,
}

pub open spec fn le16(lo: u8, hi: u8) -> int {
    lo + 256 * hi
}

pub open spec fn le32(b0: u8, b1: u8, b2: u8, b3: u8) -> int {
    b0 + 256 * b1 + 65536 * b2 + 16777216 * b3
}

/// The common header of READ / WRITE setup packets:
/// `[count_lo, count_hi, _, mode, opcode, _, addr0, addr1, addr2, addr3, ...]`,
/// decoded as `(block_count, mode_byte, opcode, address)`.
pub open spec fn spec_rw_header(data: Seq<u8>) -> Option<(u16, u8, u8, u32)> {
    if data.len() < SETUP_PACKET_LEN {
        None
    } else {
        Some(
            (
                le16(data[0], data[1]) as u16,
                data[3],
                data[4],
                le32(data[6], data[7], data[8], data[9]) as u32,
            ),
        )
    }
}

/// Decode the common header of a READ / WRITE setup packet.
pub fn parse_rw_cmd_v2(data: &[u8]) -> (r: Option<(u16, u8, u8, u32)>)
    ensures
        r == spec_rw_header(data@),
{
    if data.len() < SETUP_PACKET_LEN {
        return None;
    }
    let count: u16 = data[0] as u16 + (data[1] as u16) * 256;
    let address: u32 = data[6] as u32 + (data[7] as u32) * 256 + (data[8] as u32) * 65536 + (
    data[9] as u32) * 16777216;
    Some((count, data[3], data[4], address))
}

/// Opcode, address width and dummy clock count of each read mode:
/// standard (1), fast (2), Atmel fast (3), 4-byte address fast (4) and
/// 4-byte address fast with opcode 0x0C (5).
pub open spec fn spec_read_mode(mode: u8) -> Option<(u8, u8, u8)> {
    if mode == 1 {
        Some((0x03u8, 3u8, 0u8))
    } else if mode == 2 || mode == 3 {
        Some((0x0Bu8, 3u8, 8u8))
    } else if mode == 4 {
        Some((0x0Bu8, 4u8, 8u8))
    } else if mode == 5 {
        Some((0x0Cu8, 4u8, 8u8))
    } else {
        None
    }
}

pub fn read_mode(mode: u8) -> (r: Option<(u8, u8, u8)>)
    ensures
        r == spec_read_mode(mode),
{
    if mode == 1 {
        Some((0x03, 3, 0))
    } else if mode == 2 || mode == 3 {
        Some((0x0B, 3, 8))
    } else if mode == 4 {
        Some((0x0B, 4, 8))
    } else if mode == 5 {
        Some((0x0C, 4, 8))
    } else {
        None
    }
}

/// A READ setup: the header, with the mode's opcode unless the packet names
/// one, and the mode's address width and dummy clocks. Unknown modes and
/// short packets are refused.
pub open spec fn spec_read_setup(data: Seq<u8>) -> Option<ReadSetup> {
    match spec_rw_header(data) {
        None => None,
        Some((block_count, mode_byte, opcode, address)) => match spec_read_mode(mode_byte) {
            None => None,
            Some((mode_opcode, addr_len, dummy_cycles)) => Some(
                ReadSetup {
                    address,
                    block_count,
                    opcode: if opcode != 0 { opcode } else { mode_opcode },
                    mode_byte,
                    addr_len,
                    dummy_cycles,
                },
            ),
        },
    }
}

/// Decode a READ setup packet.
pub fn parse_read_setup(data: &[u8]) -> (r: Option<ReadSetup>)
    ensures
        r == spec_read_setup(data@),
        r matches Some(s) ==> (s.addr_len == 3 || s.addr_len == 4) && s.dummy_cycles <= 8,
{
    let (block_count, mode_byte, opcode, address) = match parse_rw_cmd_v2(data) {
        Some(h) => h,
        None => return None,
    };
    let (mode_opcode, addr_len, dummy_cycles) = match read_mode(mode_byte) {
        Some(m) => m,
        None => return None,
    };
    Some(
        ReadSetup {
            address,
            block_count,
            opcode: if opcode != 0 {
                opcode
            } else {
                mode_opcode
            },
            mode_byte,
            addr_len,
            dummy_cycles,
        },
    )
}

/// Write modes that program with a 4-byte address: 9, 11 and 12.
pub open spec fn spec_write_uses_4byte_addr(mode: u8) -> bool {
    mode == 9 || mode == 11 || mode == 12
}

/// Address width of a WRITE setup's program command.
pub fn write_addr_len(mode_byte: u8) -> (r: u8)
    ensures
        r == (if spec_write_uses_4byte_addr(mode_byte) { 4u8 } else { 3u8 }),
{
    if mode_byte == 9 || mode_byte == 11 || mode_byte == 12 {
        4
    } else {
        3
    }
}

/// Clock (Hz) of each SET_SPI_CLK preset code. Codes outside the eight
/// presets fall back to the code-0 preset, 24 MHz, so every code selects a
/// preset.
pub open spec fn spec_spi_speed_hz(code: u16) -> u32 {
    if code == 1 {
        8_000_000u32
    } else if code == 2 {
        12_000_000u32
    } else if code == 3 {
        3_000_000u32
    } else if code == 4 {
        2_180_000u32
    } else if code == 5 {
        1_500_000u32
    } else if code == 6 {
        750_000u32
    } else if code == 7 {
        375_000u32
    } else {
        24_000_000u32
    }
}

pub fn spi_speed_hz(code: u16) -> (r: u32)
    ensures
        r == spec_spi_speed_hz(code),
        375_000 <= r <= 24_000_000,
{
    if code == 1 {
        8_000_000
    } else if code == 2 {
        12_000_000
    } else if code == 3 {
        3_000_000
    } else if code == 4 {
        2_180_000
    } else if code == 5 {
        1_500_000
    } else if code == 6 {
        750_000
    } else if code == 7 {
        375_000
    } else {
        24_000_000
    }
}

/// Whole bytes needed to clock `dummy_cycles` dummy cycles on one lane.
pub open spec fn spec_dummy_bytes(dummy_cycles: u8) -> u8 {
    ((dummy_cycles + 7) / 8) as u8
}

/// Dummy clocks are sent as whole bytes, rounding up: the bytes carry at
/// least the clocks asked for and less than one byte more, so no clocks give
/// no bytes.
pub proof fn lemma_dummy_bytes_round_up(dummy_cycles: u8)
    ensures
        spec_dummy_bytes(dummy_cycles) * 8 >= dummy_cycles,
        spec_dummy_bytes(dummy_cycles) * 8 < dummy_cycles + 8,
        dummy_cycles == 0 ==> spec_dummy_bytes(dummy_cycles) == 0,
{
}

pub fn dummy_bytes(dummy_cycles: u8) -> (r: u8)
    ensures
        r == spec_dummy_bytes(dummy_cycles),
        r * 8 >= dummy_cycles,
        r * 8 < dummy_cycles + 8,
{
    let extra: u8 = if dummy_cycles % 8 != 0 {
        1
    } else {
        0
    };
    dummy_cycles / 8 + extra
}

} // verus!
