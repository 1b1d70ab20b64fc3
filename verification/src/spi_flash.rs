//! Decisions of the SPI flash driver: command framing, the SPI clock target,
//! the status-register WIP test, the page walk of bulk writes, and the
//! "forced busy" window that follows an erase command.
//!
//! Time is passed in as microseconds since boot; durations are milliseconds.

use vstd::prelude::*;

verus! {

pub const SPI_CMD_WRITE_ENABLE: u8 = 0x06;
pub const SPI_CMD_READ_STATUS: u8 = 0x05;
pub const SPI_STATUS_WIP: u8 = 0x01;

/// Protocol maximum SPI clock.
pub const MAX_SPI_FREQ_HZ: u32 = 24_000_000;
/// SPI clock at power-on.
pub const DEFAULT_SPI_FREQ_HZ: u32 = 18_000_000;

/// Each bulk USB transfer is 512 bytes.
pub const BULK_BLOCK_SIZE: usize = 512;
/// Each page program writes the first 256 bytes of a bulk block.
pub const PAGE_SIZE: usize = 256;

/// Pause between polls of the busy window.
pub const BUSY_POLL_MS: u64 = 1;
/// Settling pause once a busy window has expired.
pub const BUSY_SETTLE_MS: u64 = 25;

/// How long status reads must report WIP after a write-only command: the
/// erase opcodes hold the host off for the erase time, others not at all.
pub open spec fn spec_erase_busy_ms(write_data: Seq<u8>) -> Option<u64> {
    if write_data.len() == 0 {
        None
    } else {
        let op = write_data[0];
        if op == 0x20 || op == 0x21 {
            Some(250u64)
        } else if op == 0x52 || op == 0x5c {
            Some(750u64)
        } else if op == 0xd8 || op == 0xdc {
            Some(1_500u64)
        } else if op == 0x60 || op == 0xc7 {
            Some(60_000u64)
        } else {
            None
        }
    }
}

/// Busy time (ms) that a write-only command implies, if it is an erase.
pub fn erase_busy_duration(write_data: &[u8]) -> (r: Option<u64>)
    ensures
        r == spec_erase_busy_ms(write_data@),
        r matches Some(ms) ==> 250 <= ms <= 60_000,
{
    if write_data.len() == 0 {
        return None;
    }
    let op = write_data[0];
    if op == 0x20 || op == 0x21 {
        Some(250)
    } else if op == 0x52 || op == 0x5c {
        Some(750)
    } else if op == 0xd8 || op == 0xdc {
        Some(1_500)
    } else if op == 0x60 || op == 0xc7 {
        Some(60_000)
    } else {
        None
    }
}

/// The clock actually requested from the SPI peripheral: `freq_hz` clamped
/// to `1..=MAX_SPI_FREQ_HZ`.
pub open spec fn spec_target_frequency(freq_hz: u32) -> u32 {
    if freq_hz < 1 {
        1
    } else if freq_hz > MAX_SPI_FREQ_HZ {
        MAX_SPI_FREQ_HZ
    } else {
        freq_hz
    }
}

/// The requested clock is kept whenever it is within `1..=MAX_SPI_FREQ_HZ`;
/// faster requests get the maximum, a request of 0 gets 1 Hz, and the target
/// never exceeds what was asked for (or 1 Hz).
pub proof fn lemma_target_frequency(freq_hz: u32)
    ensures
        1 <= freq_hz <= MAX_SPI_FREQ_HZ ==> spec_target_frequency(freq_hz) == freq_hz,
        freq_hz > MAX_SPI_FREQ_HZ ==> spec_target_frequency(freq_hz) == MAX_SPI_FREQ_HZ,
        freq_hz == 0 ==> spec_target_frequency(freq_hz) == 1,
        spec_target_frequency(freq_hz) <= (if freq_hz >= 1 { freq_hz } else { 1 }),
        1 <= spec_target_frequency(freq_hz) <= MAX_SPI_FREQ_HZ,
{
}

pub fn target_frequency(freq_hz: u32) -> (r: u32)
    ensures
        r == spec_target_frequency(freq_hz),
        1 <= r <= MAX_SPI_FREQ_HZ,
        1 <= freq_hz <= MAX_SPI_FREQ_HZ ==> r == freq_hz,
        freq_hz > MAX_SPI_FREQ_HZ ==> r == MAX_SPI_FREQ_HZ,
        freq_hz == 0 ==> r == 1,
{
    if freq_hz < 1 {
        1
    } else if freq_hz > MAX_SPI_FREQ_HZ {
        MAX_SPI_FREQ_HZ
    } else {
        freq_hz
    }
}

/// Big-endian address bytes: four when `addr_len == 4`, three otherwise.
pub open spec fn spec_addr_bytes(address: u32, addr_len: u8) -> Seq<u8> {
    let low = seq![
        ((address / 65536) % 256) as u8,
        ((address / 256) % 256) as u8,
        (address % 256) as u8,
    ];
    if addr_len == 4 {
        seq![(address / 16777216) as u8] + low
    } else {
        low
    }
}

pub open spec fn spec_addr_width(addr_len: u8) -> int {
    if addr_len == 4 {
        4
    } else {
        3
    }
}

/// `opcode`, the address, then `dummy_bytes` zero bytes.
pub open spec fn spec_read_command(opcode: u8, address: u32, addr_len: u8, dummy_bytes: u8) -> Seq<
    u8,
> {
    seq![opcode] + spec_addr_bytes(address, addr_len) + Seq::new(dummy_bytes as nat, |i: int| 0u8)
}

/// `opcode`, then the address.
pub open spec fn spec_program_command(opcode: u8, address: u32, addr_len: u8) -> Seq<u8> {
    seq![opcode] + spec_addr_bytes(address, addr_len)
}

fn push_address(cmd: &mut Vec<u8>, address: u32, addr_len: u8)
    ensures
        final(cmd)@ == old(cmd)@ + spec_addr_bytes(address, addr_len),
{
    if addr_len == 4 {
        cmd.push((address / 16777216) as u8);
    }
    cmd.push(((address / 65536) % 256) as u8);
    cmd.push(((address / 256) % 256) as u8);
    cmd.push((address % 256) as u8);
    proof {
        let low = seq![
            ((address / 65536) % 256) as u8,
            ((address / 256) % 256) as u8,
            (address % 256) as u8,
        ];
        if addr_len == 4 {
            assert(final(cmd)@ =~= old(cmd)@ + (seq![(address / 16777216) as u8] + low));
        } else {
            assert(final(cmd)@ =~= old(cmd)@ + low);
        }
    }
}

/// The command that starts a bulk read: opcode, address and dummy bytes.
/// It must fit the driver's 10-byte command buffer.
pub fn read_command(opcode: u8, address: u32, addr_len: u8, dummy_bytes: u8) -> (r: Vec<u8>)
    requires
        1 + spec_addr_width(addr_len) + dummy_bytes <= 10,
    ensures
        r@ == spec_read_command(opcode, address, addr_len, dummy_bytes),
        r@.len() == 1 + spec_addr_width(addr_len) + dummy_bytes,
{
    let mut cmd: Vec<u8> = Vec::new();
    cmd.push(opcode);
    push_address(&mut cmd, address, addr_len);
    let ghost head = cmd@;
    let mut i: u8 = 0;
    while i < dummy_bytes
        invariant
            i <= dummy_bytes,
            cmd@ == head + Seq::new(i as nat, |k: int| 0u8),
        decreases dummy_bytes - i,
    {
        cmd.push(0);
        i = i + 1;
        proof {
            assert(cmd@ =~= head + Seq::new(i as nat, |k: int| 0u8));
        }
    }
    proof {
        assert(head =~= seq![opcode] + spec_addr_bytes(address, addr_len));
    }
    cmd
}

/// The page-program command header: opcode then address.
pub fn program_command(opcode: u8, address: u32, addr_len: u8) -> (r: Vec<u8>)
    ensures
        r@ == spec_program_command(opcode, address, addr_len),
        r@.len() == 1 + spec_addr_width(addr_len),
{
    let mut cmd: Vec<u8> = Vec::new();
    cmd.push(opcode);
    push_address(&mut cmd, address, addr_len);
    proof {
        assert(cmd@ =~= seq![opcode] + spec_addr_bytes(address, addr_len));
    }
    cmd
}

/// Whether a status-register value has the write-in-progress bit set.
pub fn write_in_progress(status: u8) -> (r: bool)
    ensures
        r == (status % 2 == 1),
{
    status % 2 == 1
}

/// Address of the page after the one at `address` (wrapping at 4 GiB).
pub fn next_page_address(address: u32) -> (r: u32)
    ensures
        r == (address + PAGE_SIZE) % 0x1_0000_0000,
{
    address.wrapping_add(256)
}

/// Address of page `index` of a bulk write starting at `start`.
pub open spec fn spec_page_address(start: u32, index: nat) -> u32
    decreases index,
{
    if index == 0 {
        start
    } else {
        ((spec_page_address(start, (index - 1) as nat) + PAGE_SIZE) % 0x1_0000_0000) as u32
    }
}

/// Walking a bulk write page by page puts page `k` at `start + 256 k`,
/// modulo 2^32.
pub proof fn lemma_page_walk(start: u32, index: nat)
    ensures
        spec_page_address(start, index) == (start + PAGE_SIZE * index) % 0x1_0000_0000,
    decreases index,
{
    if index > 0 {
        lemma_page_walk(start, (index - 1) as nat);
        let prev = spec_page_address(start, (index - 1) as nat);
        assert(prev == (start + PAGE_SIZE * (index - 1)) % 0x1_0000_0000);
        vstd::arithmetic::div_mod::lemma_add_mod_noop(
            start + PAGE_SIZE * (index - 1),
            PAGE_SIZE as int,
            0x1_0000_0000,
        );
        vstd::arithmetic::div_mod::lemma_mod_twice(PAGE_SIZE as int, 0x1_0000_0000);
        assert(PAGE_SIZE * (index - 1) + PAGE_SIZE == PAGE_SIZE * index) by (nonlinear_arith)
            requires index > 0;
    }
}

/// The pages of a bulk write, in order: one page per bulk block, each
/// `PAGE_SIZE` bytes after the previous one.
pub struct PageWalk {
    next_address: u32,
    remaining: u16,
}

impl View for PageWalk {
    /// Address of the next page, and how many pages are left.
    type V = (u32, u16);

    closed spec fn view(&self) -> (u32, u16) {
        (self.next_address, self.remaining)
    }
}

impl PageWalk {
    pub fn new(start: u32, block_count: u16) -> (r: Self)
        ensures
            r@ == (start, block_count),
    {
        PageWalk { next_address: start, remaining: block_count }
    }

    /// The address of the next page to program, or `None` once every block
    /// has been programmed.
    pub fn next(&mut self) -> (r: Option<u32>)
        ensures
            old(self)@.1 == 0 ==> r is None && final(self)@ == old(self)@,
            old(self)@.1 > 0 ==> r == Some(old(self)@.0) && final(self)@ == (
                ((old(self)@.0 + PAGE_SIZE) % 0x1_0000_0000) as u32,
                (old(self)@.1 - 1) as u16,
            ),
    {
        if self.remaining == 0 {
            return None;
        }
        let address = self.next_address;
        self.next_address = next_page_address(address);
        self.remaining = self.remaining - 1;
        Some(address)
    }
}

/// After an erase command sent at `sent_us`, every status read issued before
/// the erase time has passed is answered WIP without touching the bus.
pub proof fn lemma_erase_holds_off_status_reads(
    erase_cmd: Seq<u8>,
    sent_us: u64,
    status_cmd: Seq<u8>,
    now_us: u64,
)
    requires
        spec_erase_busy_ms(erase_cmd) is Some,
        sent_us + spec_erase_busy_ms(erase_cmd).unwrap() * 1000 <= u64::MAX,
        sent_us <= now_us < sent_us + spec_erase_busy_ms(erase_cmd).unwrap() * 1000,
        status_cmd.len() > 0,
        status_cmd[0] == SPI_CMD_READ_STATUS,
    ensures
        BusyWindow::spec_forces_status(
            Some((sent_us + spec_erase_busy_ms(erase_cmd).unwrap() * 1000) as u64),
            status_cmd,
            now_us,
        ),
{
}

/// What the busy-window wait does next.
#[derive(Clone, Copy, Debug, PartialEq, Eq, Structural)]
pub enum BusyWait {
    /// Still inside the window: sleep this long, then ask again.
    Poll { after_ms: u64 },
    /// The window has just expired: sleep this long, then go ahead.
    Settle { after_ms: u64 },
    /// No window: go ahead now.
    Ready,
}

/// The instant (µs) until which status reads report WIP and bulk operations
/// stall, set after an erase command.
pub struct BusyWindow {
    until_us: Option<u64>,
}

impl View for BusyWindow {
    type V = Option<u64>;

    open spec fn view(&self) -> Option<u64> {
        self.spec_until()
    }
}

impl BusyWindow {
    pub closed spec fn spec_until(&self) -> Option<u64> {
        self.until_us
    }

    /// Whether a transaction starting with `write_data` is a status read
    /// answered from the window rather than by the flash at time `now_us`.
    pub open spec fn spec_forces_status(window: Option<u64>, write_data: Seq<u8>, now_us: u64) -> bool {
        &&& write_data.len() > 0
        &&& write_data[0] == SPI_CMD_READ_STATUS
        &&& window matches Some(until) && now_us < until
    }

    /// No window.
    pub fn new() -> (r: Self)
        ensures
            r@ == None::<u64>,
    {
        BusyWindow { until_us: None }
    }

    /// Record that `write_data` was sent as a write-only command at `now_us`:
    /// an erase opens a window for its busy time, other commands leave the
    /// window as it was.
    pub fn after_write(&mut self, write_data: &[u8], now_us: u64)
        requires
            spec_erase_busy_ms(write_data@) matches Some(ms) ==> now_us + ms * 1000 <= u64::MAX,
        ensures
            final(self)@ == (match spec_erase_busy_ms(write_data@) {
                Some(ms) => Some((now_us + ms * 1000) as u64),
                None => old(self)@,
            }),
    {
        if let Some(ms) = erase_busy_duration(write_data) {
            self.until_us = Some(now_us + ms * 1000);
        }
    }

    /// Whether a transaction starting with `write_data` at `now_us` is a status
    /// read that must report WIP without touching the bus.
    pub fn forces_status(&self, write_data: &[u8], now_us: u64) -> (r: bool)
        ensures
            r == Self::spec_forces_status(self@, write_data@, now_us),
    {
        if write_data.len() == 0 || write_data[0] != SPI_CMD_READ_STATUS {
            return false;
        }
        match self.until_us {
            Some(until) => now_us < until,
            None => false,
        }
    }

    /// Answer a status read from the window: when `forces_status` holds, fill
    /// `read_buf` with WIP and return `true`; otherwise leave it and return
    /// `false` (the caller then runs the transaction on the bus).
    pub fn answer_status(&self, write_data: &[u8], read_buf: &mut [u8], now_us: u64) -> (r: bool)
        ensures
            r == Self::spec_forces_status(self@, write_data@, now_us),
            r ==> final(read_buf)@ == Seq::new(old(read_buf)@.len(), |i: int| SPI_STATUS_WIP),
            !r ==> final(read_buf)@ == old(read_buf)@,
    {
        if !self.forces_status(write_data, now_us) {
            return false;
        }
        let n = read_buf.len();
        let mut i: usize = 0;
        while i < n
            invariant
                n == read_buf@.len(),
                n == old(read_buf)@.len(),
                i <= n,
                forall|k: int| 0 <= k < i ==> read_buf@[k] == SPI_STATUS_WIP,
            decreases n - i,
        {
            read_buf[i] = SPI_STATUS_WIP;
            i = i + 1;
        }
        proof {
            assert(read_buf@ =~= Seq::new(old(read_buf)@.len(), |k: int| SPI_STATUS_WIP));
        }
        true
    }

    /// One step of waiting out the window before a bulk operation.
    pub fn wait_step(&mut self, now_us: u64) -> (r: BusyWait)
        ensures
            (old(self)@ matches Some(until) && now_us < until) ==> r == (BusyWait::Poll {
                after_ms: BUSY_POLL_MS,
            }) && final(self)@ == old(self)@,
            (old(self)@ matches Some(until) && now_us >= until) ==> r == (BusyWait::Settle {
                after_ms: BUSY_SETTLE_MS,
            }) && final(self)@ == None::<u64>,
            old(self)@ is None ==> r == BusyWait::Ready && final(self)@ == None::<u64>,
    {
        match self.until_us {
            Some(until) => {
                if now_us < until {
                    BusyWait::Poll { after_ms: BUSY_POLL_MS }
                } else {
                    self.until_us = None;
                    BusyWait::Settle { after_ms: BUSY_SETTLE_MS }
                }
            },
            None => BusyWait::Ready,
        }
    }
}

} // verus!
