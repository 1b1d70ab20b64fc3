//! The SF600 vendor control-request handler of interface 0.
//!
//! Control OUT requests update the handler and return the flash-side action
//! that the firmware performs (SPI transaction, chip select, clock change,
//! bulk transfer); control IN requests are answered from the handler's state
//! and fixed device identity data.

use vstd::prelude::*;

use crate::protocol::{
    dummy_bytes, lemma_dummy_bytes_round_up, parse_read_setup, parse_rw_cmd_v2, spec_dummy_bytes, spec_read_setup,
    spec_rw_header, spec_spi_speed_hz, spec_write_uses_4byte_addr, spi_speed_hz,
    write_addr_len, BulkOperation, CMD_CHECK_SOCKET, CMD_GET_BUTTON, CMD_GET_UID, CMD_IO_MODE,
    CMD_READ, CMD_READ_EEPROM, CMD_READ_FPGA_VERSION, CMD_READ_PROG_INFO, CMD_SET_CS,
    CMD_SET_IO_LED, CMD_SET_SPI_CLK, CMD_SET_VOLTAGE, CMD_TRANSCEIVE, CMD_WRITE,
    DEFAULT_PROGRAM_OPCODE,
};

verus! {

/// Largest SPI command accepted by TRANSCEIVE, and the bytes read back.
pub const TRANSCEIVE_MAX: usize = 16;

/// Type field of a control request.
#[derive(Clone, Copy, Debug, PartialEq, Eq, Structural)]
pub enum RequestType {
    Standard,
    Class,
    Vendor,
    Reserved,
}

/// A control request from a SETUP packet.
#[derive(Clone, Copy, Debug, PartialEq, Eq, Structural)]
pub struct Request {
    pub request_type: RequestType,
    pub request: u8,
    pub value: u16,
    pub index: u16,
    pub length: u16,
}

/// Answer to a control OUT request.
#[derive(Clone, Copy, Debug, PartialEq, Eq, Structural)]
pub enum OutResponse {
    Accepted,
    Rejected,
}

/// Answer to a control IN request: accepted with the first `len` bytes of
/// the caller's buffer, or rejected.
#[derive(Clone, Copy, Debug, PartialEq, Eq, Structural)]
pub enum InResponse {
    Accepted { len: usize },
    Rejected,
}

/// What the firmware must do on the flash after a control OUT request.
#[derive(Clone, Copy, Debug, PartialEq, Eq, Structural)]
pub enum FlashAction {
    NoOp,
    /// Run the request's data as one SPI transaction; with `read_back`, read
    /// `TRANSCEIVE_MAX` bytes after it and hand them to
    /// `DediprogHandler::record_transceive_read`.
    Transceive { read_back: bool },
    /// Assert (select) or release the chip select.
    ChipSelect { asserted: bool },
    /// Reprogram the SPI clock.
    SetFrequency { hz: u32 },
    /// Hand a bulk transfer to the bulk worker.
    StartBulk { op: BulkOperation },
}

/// The Pass / Busy / Error indicator LEDs.
#[derive(Clone, Copy, Debug, PartialEq, Eq, Structural)]
pub struct Leds {
    pub pass: bool,
    pub busy: bool,
    pub error: bool,
}

impl Leds {
    /// All LEDs off.
    pub fn new() -> (r: Self)
        ensures
            !r.pass && !r.busy && !r.error,
    {
        Leds { pass: false, busy: false, error: false }
    }

    /// The LEDs a SET_IO_LED `wValue` selects: bits 8, 9 and 10 drive Pass,
    /// Busy and Error, active low.
    pub open spec fn spec_from_wvalue(value: u16) -> Leds {
        Leds {
            pass: (value / 256) % 2 == 0,
            busy: (value / 512) % 2 == 0,
            error: (value / 1024) % 2 == 0,
        }
    }

    pub fn set_from_wvalue(&mut self, value: u16)
        ensures
            *final(self) == Self::spec_from_wvalue(value),
            final(self).pass <==> value & 0x0100 == 0,
            final(self).busy <==> value & 0x0200 == 0,
            final(self).error <==> value & 0x0400 == 0,
    {
        proof {
            lemma_led_bits(value);
        }
        self.pass = (value / 256) % 2 == 0;
        self.busy = (value / 512) % 2 == 0;
        self.error = (value / 1024) % 2 == 0;
    }
}

/// SET_IO_LED drives the LEDs from wValue bits 8 (Pass), 9 (Busy) and 10
/// (Error), each lit when its bit is clear.
pub proof fn lemma_led_bits(value: u16)
    ensures
        Leds::spec_from_wvalue(value).pass <==> value & 0x0100 == 0,
        Leds::spec_from_wvalue(value).busy <==> value & 0x0200 == 0,
        Leds::spec_from_wvalue(value).error <==> value & 0x0400 == 0,
{
    assert(((value / 256) % 2 == 0) <==> (value & 0x0100 == 0)) by (bit_vector);
    assert(((value / 512) % 2 == 0) <==> (value & 0x0200 == 0)) by (bit_vector);
    assert(((value / 1024) % 2 == 0) <==> (value & 0x0400 == 0)) by (bit_vector);
}

/// The abstract state of the handler.
pub struct HandlerState {
    /// Bytes read back by the last TRANSCEIVE with a read phase.
    pub read_buf: Seq<u8>,
    /// How many of them the next TRANSCEIVE IN may return.
    pub read_len: u8,
    pub leds: Leds,
    pub configured: bool,
}

/// Identification string returned by READ_PROG_INFO: "SF600 V:7.2.22 S6B000001"
/// (an SF600 with firmware 7.2.22).
pub open spec fn spec_device_string() -> Seq<u8> {
    seq![
        0x53u8, 0x46, 0x36, 0x30, 0x30, 0x20, 0x56, 0x3A, 0x37, 0x2E, 0x32, 0x2E, 0x32, 0x32,
        0x20, 0x53, 0x36, 0x42, 0x30, 0x30, 0x30, 0x30, 0x30, 0x31,
    ]
}

/// Serial id returned by READ_EEPROM (decoded by hosts as 0x010000).
pub open spec fn spec_serial_id() -> Seq<u8> {
    seq![0x01u8, 0x00, 0x00, 0, 0, 0, 0, 0, 0, 0, 0, 0, 0, 0, 0, 0]
}

/// Unique id returned by GET_UID.
pub open spec fn spec_uid() -> Seq<u8> {
    seq![0xDEu8, 0xD1, 0x01, 0xC0, 0x00, 0x00, 0x00, 0x01]
}

/// Version returned by READ_FPGA_VERSION.
pub open spec fn spec_fpga_version() -> Seq<u8> {
    seq![0x00u8, 0x01]
}

pub open spec fn min(a: int, b: int) -> int {
    if a <= b {
        a
    } else {
        b
    }
}

/// Whether the handler takes a control OUT request at all.
pub open spec fn spec_out_handled(req: Request) -> bool {
    req.request_type == RequestType::Vendor
}

/// The answer to a control OUT request with data stage `data`.
pub open spec fn spec_out_response(req: Request, data: Seq<u8>) -> Option<OutResponse> {
    if !spec_out_handled(req) {
        None
    } else if req.request == CMD_TRANSCEIVE {
        if data.len() == 0 || data.len() > TRANSCEIVE_MAX {
            Some(OutResponse::Rejected)
        } else {
            Some(OutResponse::Accepted)
        }
    } else if req.request == CMD_IO_MODE {
        if req.value == 0 {
            Some(OutResponse::Accepted)
        } else {
            Some(OutResponse::Rejected)
        }
    } else if req.request == CMD_READ {
        if spec_read_setup(data) is Some {
            Some(OutResponse::Accepted)
        } else {
            Some(OutResponse::Rejected)
        }
    } else if req.request == CMD_WRITE {
        if spec_rw_header(data) is Some {
            Some(OutResponse::Accepted)
        } else {
            Some(OutResponse::Rejected)
        }
    } else {
        Some(OutResponse::Accepted)
    }
}

/// The bulk read a valid READ setup starts.
pub open spec fn spec_read_op(data: Seq<u8>) -> BulkOperation {
    let s = spec_read_setup(data).unwrap();
    BulkOperation::Read {
        address: s.address,
        block_count: s.block_count,
        opcode: s.opcode,
        addr_len: s.addr_len,
        dummy_bytes: spec_dummy_bytes(s.dummy_cycles),
    }
}

/// The bulk write a valid WRITE setup starts: 4-byte addresses for the
/// 4-byte write modes, and the default page-program opcode when the setup
/// leaves it at zero.
pub open spec fn spec_write_op(data: Seq<u8>) -> BulkOperation {
    let (block_count, mode_byte, opcode, address) = spec_rw_header(data).unwrap();
    BulkOperation::Write {
        address,
        block_count,
        opcode: if opcode != 0 { opcode } else { DEFAULT_PROGRAM_OPCODE },
        addr_len: if spec_write_uses_4byte_addr(mode_byte) { 4u8 } else { 3u8 },
    }
}

/// The flash action of a control OUT request.
pub open spec fn spec_out_action(req: Request, data: Seq<u8>) -> FlashAction {
    if !spec_out_handled(req) {
        FlashAction::NoOp
    } else if req.request == CMD_TRANSCEIVE {
        if data.len() == 0 || data.len() > TRANSCEIVE_MAX {
            FlashAction::NoOp
        } else {
            FlashAction::Transceive { read_back: req.value % 2 == 1 }
        }
    } else if req.request == CMD_SET_CS {
        FlashAction::ChipSelect { asserted: req.value == 0 }
    } else if req.request == CMD_SET_SPI_CLK {
        FlashAction::SetFrequency { hz: spec_spi_speed_hz(req.value) }
    } else if req.request == CMD_READ {
        if spec_read_setup(data) is Some {
            FlashAction::StartBulk { op: spec_read_op(data) }
        } else {
            FlashAction::NoOp
        }
    } else if req.request == CMD_WRITE {
        if spec_rw_header(data) is Some {
            FlashAction::StartBulk { op: spec_write_op(data) }
        } else {
            FlashAction::NoOp
        }
    } else {
        FlashAction::NoOp
    }
}

/// The handler state after a control OUT request: an accepted TRANSCEIVE
/// clears the read-back buffer and allows `TRANSCEIVE_MAX` bytes back when
/// it has a read phase (none otherwise); SET_IO_LED sets the LEDs.
pub open spec fn spec_after_out(s: HandlerState, req: Request, data: Seq<u8>) -> HandlerState {
    if !spec_out_handled(req) {
        s
    } else if req.request == CMD_TRANSCEIVE {
        if data.len() == 0 || data.len() > TRANSCEIVE_MAX {
            s
        } else if req.value % 2 == 1 {
            HandlerState {
                read_buf: Seq::new(TRANSCEIVE_MAX as nat, |i: int| 0u8),
                read_len: TRANSCEIVE_MAX as u8,
                ..s
            }
        } else {
            HandlerState { read_len: 0, ..s }
        }
    } else if req.request == CMD_SET_IO_LED {
        HandlerState { leds: Leds::spec_from_wvalue(req.value), ..s }
    } else {
        s
    }
}

/// The answer to a control IN request with a `buf_len`-byte buffer: `None`
/// when not handled, `Some(None)` when rejected, `Some(Some(bytes))` when
/// accepted with `bytes`.
pub open spec fn spec_in_reply(s: HandlerState, req: Request, buf_len: nat) -> Option<
    Option<Seq<u8>>,
> {
    if req.request_type != RequestType::Vendor {
        None
    } else if req.request == CMD_TRANSCEIVE {
        Some(Some(s.read_buf.take(min(req.length as int, s.read_len as int))))
    } else if req.request == CMD_READ_EEPROM {
        Some(Some(spec_serial_id().take(min(16, buf_len as int))))
    } else if req.request == CMD_READ_PROG_INFO {
        Some(Some(spec_device_string().take(min(24, buf_len as int))))
    } else if req.request == CMD_SET_VOLTAGE {
        if buf_len > 0 {
            Some(Some(seq![0x6Fu8]))
        } else {
            Some(None)
        }
    } else if req.request == CMD_GET_BUTTON {
        if buf_len > 0 {
            Some(Some(seq![0x01u8]))
        } else {
            Some(None)
        }
    } else if req.request == CMD_GET_UID {
        Some(Some(spec_uid().take(min(8, buf_len as int))))
    } else if req.request == CMD_READ_FPGA_VERSION {
        Some(Some(spec_fpga_version().take(min(min(2, buf_len as int), req.length as int))))
    } else if req.request == CMD_CHECK_SOCKET {
        if buf_len > 0 {
            Some(Some(seq![0x00u8]))
        } else {
            Some(Some(Seq::empty()))
        }
    } else {
        None
    }
}

/// A TRANSCEIVE IN copies `min(length, read_len)` bytes, which must fit the
/// caller's buffer.
pub open spec fn spec_in_fits(s: HandlerState, req: Request, buf_len: nat) -> bool {
    req.request_type == RequestType::Vendor && req.request == CMD_TRANSCEIVE ==> min(
        req.length as int,
        s.read_len as int,
    ) <= buf_len
}

/// A TRANSCEIVE with a read phase is answered by the next TRANSCEIVE IN with
/// the bytes the SPI transaction read back, up to the length the host asks
/// for and at most `TRANSCEIVE_MAX`.
pub proof fn lemma_transceive_read_back(
    s: HandlerState,
    out_req: Request,
    data: Seq<u8>,
    read: Seq<u8>,
    in_req: Request,
    buf_len: nat,
)
    requires
        out_req.request_type == RequestType::Vendor,
        out_req.request == CMD_TRANSCEIVE,
        out_req.value % 2 == 1,
        0 < data.len() <= TRANSCEIVE_MAX,
        read.len() == TRANSCEIVE_MAX,
        in_req.request_type == RequestType::Vendor,
        in_req.request == CMD_TRANSCEIVE,
    ensures
        spec_out_response(out_req, data) == Some(OutResponse::Accepted),
        spec_out_action(out_req, data) == (FlashAction::Transceive { read_back: true }),
        ({
            let after = HandlerState { read_buf: read, ..spec_after_out(s, out_req, data) };
            &&& spec_in_fits(after, in_req, buf_len) <==> min(in_req.length as int, 16) <= buf_len
            &&& spec_in_reply(after, in_req, buf_len) == Some(
                Some(read.take(min(in_req.length as int, TRANSCEIVE_MAX as int))),
            )
        }),
{
}

/// The handler state after a run of control OUT requests, each with its
/// data stage.
pub open spec fn spec_after_outs(s: HandlerState, reqs: Seq<(Request, Seq<u8>)>) -> HandlerState
    decreases reqs.len(),
{
    if reqs.len() == 0 {
        s
    } else {
        spec_after_outs(spec_after_out(s, reqs[0].0, reqs[0].1), reqs.drop_first())
    }
}

pub open spec fn spec_is_transceive(req: Request) -> bool {
    req.request_type == RequestType::Vendor && req.request == CMD_TRANSCEIVE
}

/// Control OUT requests other than TRANSCEIVE leave the read-back bytes and
/// their count as they were.
pub proof fn lemma_other_requests_keep_read_back(s: HandlerState, reqs: Seq<(Request, Seq<u8>)>)
    requires
        forall|i: int| 0 <= i < reqs.len() ==> !spec_is_transceive(#[trigger] reqs[i].0),
    ensures
        spec_after_outs(s, reqs).read_buf == s.read_buf,
        spec_after_outs(s, reqs).read_len == s.read_len,
    decreases reqs.len(),
{
    if reqs.len() > 0 {
        assert(!spec_is_transceive(reqs[0].0));
        let rest = reqs.drop_first();
        assert forall|i: int| 0 <= i < rest.len() implies !spec_is_transceive(#[trigger] rest[i].0) by {
            assert(rest[i] == reqs[i + 1]);
        }
        lemma_other_requests_keep_read_back(spec_after_out(s, reqs[0].0, reqs[0].1), rest);
    }
}

/// The read-back law with any control OUT requests but TRANSCEIVE in between:
/// a TRANSCEIVE IN returns the bytes the last TRANSCEIVE with a read phase
/// read back (up to wLength and 16), and nothing after a write-only one.
pub proof fn lemma_transceive_read_back_later(
    s: HandlerState,
    out_req: Request,
    data: Seq<u8>,
    read: Seq<u8>,
    between: Seq<(Request, Seq<u8>)>,
    in_req: Request,
    buf_len: nat,
)
    requires
        spec_is_transceive(out_req),
        0 < data.len() <= TRANSCEIVE_MAX,
        read.len() == TRANSCEIVE_MAX,
        forall|i: int| 0 <= i < between.len() ==> !spec_is_transceive(#[trigger] between[i].0),
        spec_is_transceive(in_req),
    ensures
        ({
            let after_out = spec_after_out(s, out_req, data);
            let recorded = if out_req.value % 2 == 1 {
                HandlerState { read_buf: read, ..after_out }
            } else {
                after_out
            };
            let later = spec_after_outs(recorded, between);
            let expected = if out_req.value % 2 == 1 {
                read.take(min(in_req.length as int, TRANSCEIVE_MAX as int))
            } else {
                Seq::<u8>::empty()
            };
            &&& spec_out_response(out_req, data) == Some(OutResponse::Accepted)
            &&& spec_in_fits(later, in_req, buf_len) <==> min(
                in_req.length as int,
                later.read_len as int,
            ) <= buf_len
            &&& spec_in_reply(later, in_req, buf_len) == Some(Some(expected))
        }),
{
    let after_out = spec_after_out(s, out_req, data);
    let recorded = if out_req.value % 2 == 1 {
        HandlerState { read_buf: read, ..after_out }
    } else {
        after_out
    };
    lemma_other_requests_keep_read_back(recorded, between);
    let later = spec_after_outs(recorded, between);
    if out_req.value % 2 != 1 {
        assert(later.read_buf.take(min(in_req.length as int, 0)) =~= Seq::<u8>::empty());
    }
}

/// After SET_IO_LED with wValue `v` the Pass LED is lit exactly when bit 8 of
/// `v` is clear, Busy when bit 9 is, Error when bit 10 is.
pub proof fn lemma_set_io_led(s: HandlerState, req: Request, data: Seq<u8>)
    requires
        req.request_type == RequestType::Vendor,
        req.request == CMD_SET_IO_LED,
    ensures
        spec_out_response(req, data) == Some(OutResponse::Accepted),
        spec_after_out(s, req, data).leds.pass <==> req.value & 0x0100 == 0,
        spec_after_out(s, req, data).leds.busy <==> req.value & 0x0200 == 0,
        spec_after_out(s, req, data).leds.error <==> req.value & 0x0400 == 0,
{
    lemma_led_bits(req.value);
}

/// A READ setup in standard mode (1) starts a read of the packet's block
/// count at the packet's address, with opcode 0x03 unless the packet names
/// one, a 3-byte address and no dummy bytes.
pub proof fn lemma_standard_read_setup(req: Request, data: Seq<u8>)
    requires
        req.request_type == RequestType::Vendor,
        req.request == CMD_READ,
        data.len() >= 10,
        data[3] == 1,
    ensures
        spec_out_response(req, data) == Some(OutResponse::Accepted),
        spec_out_action(req, data) == (FlashAction::StartBulk {
            op: BulkOperation::Read {
                address: (data[6] + 256 * data[7] + 65536 * data[8] + 16777216 * data[9]) as u32,
                block_count: (data[0] + 256 * data[1]) as u16,
                opcode: if data[4] != 0 { data[4] } else { 0x03u8 },
                addr_len: 3,
                dummy_bytes: 0,
            },
        }),
{
}

/// Every bulk read started from a READ setup rounds the mode's dummy clocks
/// up to whole bytes: the bytes carry at least those clocks and less than one
/// byte more.
pub proof fn lemma_read_dummy_bytes(req: Request, data: Seq<u8>)
    ensures
        spec_out_action(req, data) matches FlashAction::StartBulk {
            op: BulkOperation::Read { dummy_bytes, .. },
        } ==> {
            let cycles = spec_read_setup(data).unwrap().dummy_cycles;
            &&& dummy_bytes * 8 >= cycles
            &&& dummy_bytes * 8 < cycles + 8
        },
{
    if spec_read_setup(data) is Some {
        lemma_dummy_bytes_round_up(spec_read_setup(data).unwrap().dummy_cycles);
    }
}

/// A write-only TRANSCEIVE leaves nothing to read back: the next TRANSCEIVE
/// IN is answered with no data.
pub proof fn lemma_transceive_write_only(
    s: HandlerState,
    out_req: Request,
    data: Seq<u8>,
    in_req: Request,
    buf_len: nat,
)
    requires
        out_req.request_type == RequestType::Vendor,
        out_req.request == CMD_TRANSCEIVE,
        out_req.value % 2 == 0,
        0 < data.len() <= TRANSCEIVE_MAX,
        in_req.request_type == RequestType::Vendor,
        in_req.request == CMD_TRANSCEIVE,
    ensures
        spec_out_action(out_req, data) == (FlashAction::Transceive { read_back: false }),
        spec_in_fits(spec_after_out(s, out_req, data), in_req, buf_len),
        spec_in_reply(spec_after_out(s, out_req, data), in_req, buf_len) == Some(
            Some(Seq::<u8>::empty()),
        ),
{
    let after = spec_after_out(s, out_req, data);
    assert(after.read_buf.take(min(in_req.length as int, 0)) =~= Seq::<u8>::empty());
}

/// Requests of any type but Vendor are left to other handlers and change
/// nothing.
pub proof fn lemma_non_vendor_ignored(s: HandlerState, req: Request, data: Seq<u8>, buf_len: nat)
    requires
        req.request_type != RequestType::Vendor,
    ensures
        spec_out_response(req, data) is None,
        spec_out_action(req, data) == FlashAction::NoOp,
        spec_after_out(s, req, data) == s,
        spec_in_reply(s, req, buf_len) is None,
{
}

/// Every bulk transfer the handler starts is well formed: its address width
/// is 3 or 4 bytes and its read command fits the driver's buffer.
pub proof fn lemma_started_bulk_wf(req: Request, data: Seq<u8>)
    ensures
        spec_out_action(req, data) matches FlashAction::StartBulk { op } ==> op.wf(),
{
    if spec_out_handled(req) && req.request == CMD_READ && spec_read_setup(data) is Some {
        let s = spec_read_setup(data).unwrap();
        assert(s.dummy_cycles <= 8);
        assert(spec_dummy_bytes(s.dummy_cycles) <= 1);
    }
}

fn copy_prefix(buf: &mut [u8], src: &[u8], n: usize)
    requires
        n <= src@.len(),
        n <= old(buf)@.len(),
    ensures
        final(buf)@ == src@.take(n as int) + old(buf)@.skip(n as int),
{
    let mut i: usize = 0;
    while i < n
        invariant
            n <= src@.len(),
            n <= old(buf)@.len(),
            buf@.len() == old(buf)@.len(),
            i <= n,
            forall|k: int| 0 <= k < i ==> buf@[k] == src@[k],
            forall|k: int| i <= k < buf@.len() ==> buf@[k] == old(buf)@[k],
        decreases n - i,
    {
        buf[i] = src[i];
        i = i + 1;
    }
    proof {
        assert(buf@ =~= src@.take(n as int) + old(buf)@.skip(n as int));
    }
}

fn min_usize(a: usize, b: usize) -> (r: usize)
    ensures
        r == min(a as int, b as int),
{
    if a <= b {
        a
    } else {
        b
    }
}

fn device_string() -> (r: [u8; 24])
    ensures
        r@ == spec_device_string(),
{
    let r = [
        0x53u8, 0x46, 0x36, 0x30, 0x30, 0x20, 0x56, 0x3A, 0x37, 0x2E, 0x32, 0x2E, 0x32, 0x32,
        0x20, 0x53, 0x36, 0x42, 0x30, 0x30, 0x30, 0x30, 0x30, 0x31,
    ];
    proof {
        assert(r@ =~= spec_device_string());
    }
    r
}

fn serial_id() -> (r: [u8; 16])
    ensures
        r@ == spec_serial_id(),
{
    let r = [0x01u8, 0x00, 0x00, 0, 0, 0, 0, 0, 0, 0, 0, 0, 0, 0, 0, 0];
    proof {
        assert(r@ =~= spec_serial_id());
    }
    r
}

fn uid() -> (r: [u8; 8])
    ensures
        r@ == spec_uid(),
{
    let r = [0xDEu8, 0xD1, 0x01, 0xC0, 0x00, 0x00, 0x00, 0x01];
    proof {
        assert(r@ =~= spec_uid());
    }
    r
}

fn fpga_version() -> (r: [u8; 2])
    ensures
        r@ == spec_fpga_version(),
{
    let r = [0x00u8, 0x01];
    proof {
        assert(r@ =~= spec_fpga_version());
    }
    r
}

/// Handler of the SF600 vendor control requests.
pub struct DediprogHandler {
    transceive_read_buf: [u8; 16],
    transceive_read_len: u8,
    leds: Leds,
    configured: bool,
}

impl View for DediprogHandler {
    type V = HandlerState;

    closed spec fn view(&self) -> HandlerState {
        HandlerState {
            read_buf: self.transceive_read_buf@,
            read_len: self.transceive_read_len,
            leds: self.leds,
            configured: self.configured,
        }
    }
}

impl DediprogHandler {
    #[verifier::type_invariant]
    spec fn inv(self) -> bool {
        self.transceive_read_len <= TRANSCEIVE_MAX
    }

    /// A handler with nothing to read back, not yet configured.
    pub fn new(leds: Leds) -> (r: Self)
        ensures
            r@.read_buf == Seq::new(TRANSCEIVE_MAX as nat, |i: int| 0u8),
            r@.read_len == 0,
            r@.leds == leds,
            !r@.configured,
    {
        let r = DediprogHandler {
            transceive_read_buf: [0u8; 16],
            transceive_read_len: 0,
            leds,
            configured: false,
        };
        proof {
            assert(r@.read_buf =~= Seq::new(TRANSCEIVE_MAX as nat, |i: int| 0u8));
        }
        r
    }

    pub fn leds(&self) -> (r: Leds)
        ensures
            r == self@.leds,
    {
        self.leds
    }

    /// How many read-back bytes the next TRANSCEIVE IN may return.
    pub fn pending_read_len(&self) -> (r: u8)
        ensures
            r == self@.read_len,
            r <= TRANSCEIVE_MAX,
            self@.read_buf.len() == TRANSCEIVE_MAX,
    {
        proof {
            use_type_invariant(self);
        }
        self.transceive_read_len
    }

    pub fn is_configured(&self) -> (r: bool)
        ensures
            r == self@.configured,
    {
        self.configured
    }

    /// The host configured or deconfigured the device.
    pub fn configured(&mut self, configured: bool)
        ensures
            final(self)@ == (HandlerState { configured, ..old(self)@ }),
    {
        proof {
            use_type_invariant(&*self);
        }
        self.configured = configured;
    }

    /// Keep the bytes a TRANSCEIVE read phase returned for the following IN.
    pub fn record_transceive_read(&mut self, read: &[u8; 16])
        ensures
            final(self)@ == (HandlerState { read_buf: read@, ..old(self)@ }),
    {
        proof {
            use_type_invariant(&*self);
        }
        self.transceive_read_buf = *read;
    }

    /// TRANSCEIVE OUT: accept 1 to 16 command bytes; with a read phase
    /// (wValue bit 0) the read-back buffer is cleared and 16 bytes will be
    /// offered to the following IN, otherwise none.
    fn cmd_transceive_out(&mut self, req: Request, data: &[u8]) -> (r: (Option<OutResponse>, FlashAction))
        requires
            req.request_type == RequestType::Vendor,
            req.request == CMD_TRANSCEIVE,
        ensures
            r.0 == spec_out_response(req, data@),
            r.1 == spec_out_action(req, data@),
            final(self)@ == spec_after_out(old(self)@, req, data@),
    {
        proof {
            use_type_invariant(&*self);
        }
        if data.len() == 0 || data.len() > TRANSCEIVE_MAX {
            return (Some(OutResponse::Rejected), FlashAction::NoOp);
        }
        let read_back = req.value % 2 == 1;
        if read_back {
            self.transceive_read_buf = [0u8; 16];
            self.transceive_read_len = 16;
            proof {
                assert(self@.read_buf =~= Seq::new(TRANSCEIVE_MAX as nat, |i: int| 0u8));
            }
        } else {
            self.transceive_read_len = 0;
        }
        (Some(OutResponse::Accepted), FlashAction::Transceive { read_back })
    }

    /// SET_IO_LED: set the LEDs from wValue.
    fn cmd_set_io_led(&mut self, req: Request) -> (r: (Option<OutResponse>, FlashAction))
        requires
            req.request_type == RequestType::Vendor,
            req.request == CMD_SET_IO_LED,
        ensures
            r.0 == spec_out_response(req, Seq::empty()),
            r.1 == spec_out_action(req, Seq::empty()),
            final(self)@ == spec_after_out(old(self)@, req, Seq::empty()),
    {
        proof {
            use_type_invariant(&*self);
        }
        let mut leds = self.leds;
        leds.set_from_wvalue(req.value);
        self.leds = leds;
        (Some(OutResponse::Accepted), FlashAction::NoOp)
    }

    /// IO_MODE: the hardware has a single lane, so only mode 0 is accepted.
    fn cmd_io_mode(&self, req: Request) -> (r: (Option<OutResponse>, FlashAction))
        requires
            req.request_type == RequestType::Vendor,
            req.request == CMD_IO_MODE,
        ensures
            r.0 == spec_out_response(req, Seq::empty()),
            r.1 == spec_out_action(req, Seq::empty()),
    {
        if req.value == 0 {
            (Some(OutResponse::Accepted), FlashAction::NoOp)
        } else {
            (Some(OutResponse::Rejected), FlashAction::NoOp)
        }
    }

    /// SET_SPI_CLK: reprogram the clock to the preset wValue names.
    fn cmd_set_spi_clk(&self, req: Request) -> (r: (Option<OutResponse>, FlashAction))
        requires
            req.request_type == RequestType::Vendor,
            req.request == CMD_SET_SPI_CLK,
        ensures
            r.0 == spec_out_response(req, Seq::empty()),
            r.1 == spec_out_action(req, Seq::empty()),
    {
        (Some(OutResponse::Accepted), FlashAction::SetFrequency { hz: spi_speed_hz(req.value) })
    }

    /// READ: decode the setup packet and start a bulk read, with the dummy
    /// clocks rounded up to whole bytes.
    fn cmd_read_setup(&self, req: Request, data: &[u8]) -> (r: (Option<OutResponse>, FlashAction))
        requires
            req.request_type == RequestType::Vendor,
            req.request == CMD_READ,
        ensures
            r.0 == spec_out_response(req, data@),
            r.1 == spec_out_action(req, data@),
    {
        match parse_read_setup(data) {
            Some(setup) => {
                let op = BulkOperation::Read {
                    address: setup.address,
                    block_count: setup.block_count,
                    opcode: setup.opcode,
                    addr_len: setup.addr_len,
                    dummy_bytes: dummy_bytes(setup.dummy_cycles),
                };
                (Some(OutResponse::Accepted), FlashAction::StartBulk { op })
            },
            None => (Some(OutResponse::Rejected), FlashAction::NoOp),
        }
    }

    /// WRITE: decode the setup packet and start a bulk write.
    fn cmd_write_setup(&self, req: Request, data: &[u8]) -> (r: (Option<OutResponse>, FlashAction))
        requires
            req.request_type == RequestType::Vendor,
            req.request == CMD_WRITE,
        ensures
            r.0 == spec_out_response(req, data@),
            r.1 == spec_out_action(req, data@),
    {
        match parse_rw_cmd_v2(data) {
            Some((block_count, mode_byte, opcode, address)) => {
                let op = BulkOperation::Write {
                    address,
                    block_count,
                    opcode: if opcode != 0 {
                        opcode
                    } else {
                        DEFAULT_PROGRAM_OPCODE
                    },
                    addr_len: write_addr_len(mode_byte),
                };
                (Some(OutResponse::Accepted), FlashAction::StartBulk { op })
            },
            None => (Some(OutResponse::Rejected), FlashAction::NoOp),
        }
    }

    /// Handle a control OUT request with data stage `data`.
    pub fn control_out(&mut self, req: Request, data: &[u8]) -> (r: (Option<OutResponse>, FlashAction))
        ensures
            r.0 == spec_out_response(req, data@),
            r.1 == spec_out_action(req, data@),
            final(self)@ == spec_after_out(old(self)@, req, data@),
            r.1 matches FlashAction::StartBulk { op } ==> op.wf(),
    {
        proof {
            lemma_started_bulk_wf(req, data@);
        }
        if req.request_type != RequestType::Vendor {
            return (None, FlashAction::NoOp);
        }
        let cmd = req.request;
        if cmd == CMD_TRANSCEIVE {
            self.cmd_transceive_out(req, data)
        } else if cmd == CMD_SET_IO_LED {
            self.cmd_set_io_led(req)
        } else if cmd == CMD_IO_MODE {
            self.cmd_io_mode(req)
        } else if cmd == CMD_SET_CS {
            (Some(OutResponse::Accepted), FlashAction::ChipSelect { asserted: req.value == 0 })
        } else if cmd == CMD_READ {
            self.cmd_read_setup(req, data)
        } else if cmd == CMD_WRITE {
            self.cmd_write_setup(req, data)
        } else if cmd == CMD_SET_SPI_CLK {
            self.cmd_set_spi_clk(req)
        } else {
            (Some(OutResponse::Accepted), FlashAction::NoOp)
        }
    }

    /// The contract shared by the IN commands: the reply, written to the
    /// front of `buf`, is the one `spec_in_reply` gives.
    pub open spec fn in_reply_is(
        s: HandlerState,
        req: Request,
        old_buf: Seq<u8>,
        new_buf: Seq<u8>,
        r: Option<InResponse>,
    ) -> bool {
        match spec_in_reply(s, req, old_buf.len()) {
            None => r is None && new_buf == old_buf,
            Some(None) => r == Some(InResponse::Rejected) && new_buf == old_buf,
            Some(Some(bytes)) => r == Some(InResponse::Accepted { len: bytes.len() as usize })
                && new_buf == bytes + old_buf.skip(bytes.len() as int),
        }
    }

    /// Reply with the first `n` bytes of `src`.
    fn reply_prefix(buf: &mut [u8], src: &[u8], n: usize) -> (r: Option<InResponse>)
        requires
            n <= src@.len(),
            n <= old(buf)@.len(),
        ensures
            r == Some(InResponse::Accepted { len: n }),
            final(buf)@ == src@.take(n as int) + old(buf)@.skip(n as int),
    {
        copy_prefix(buf, src, n);
        Some(InResponse::Accepted { len: n })
    }

    /// Reply with the single byte `byte` when the buffer has room, else
    /// reject.
    fn reply_byte(buf: &mut [u8], byte: u8) -> (r: Option<InResponse>)
        ensures
            old(buf)@.len() > 0 ==> r == Some(InResponse::Accepted { len: 1 }) && final(buf)@
                == seq![byte] + old(buf)@.skip(1),
            old(buf)@.len() == 0 ==> r == Some(InResponse::Rejected) && final(buf)@ == old(buf)@,
    {
        if buf.len() > 0 {
            buf[0] = byte;
            proof {
                assert(buf@ =~= seq![byte] + old(buf)@.skip(1));
            }
            Some(InResponse::Accepted { len: 1 })
        } else {
            Some(InResponse::Rejected)
        }
    }

    /// TRANSCEIVE IN: the buffered read-back bytes, up to wLength.
    fn cmd_transceive_in(&self, req: Request, buf: &mut [u8]) -> (r: Option<InResponse>)
        requires
            req.request_type == RequestType::Vendor,
            req.request == CMD_TRANSCEIVE,
            spec_in_fits(self@, req, old(buf)@.len()),
        ensures
            Self::in_reply_is(self@, req, old(buf)@, final(buf)@, r),
    {
        proof {
            use_type_invariant(self);
        }
        let n = min_usize(req.length as usize, self.transceive_read_len as usize);
        Self::reply_prefix(buf, self.transceive_read_buf.as_slice(), n)
    }

    /// READ_PROG_INFO: the identification string, cut to the buffer.
    fn cmd_read_prog_info(&self, req: Request, buf: &mut [u8]) -> (r: Option<InResponse>)
        requires
            req.request_type == RequestType::Vendor,
            req.request == CMD_READ_PROG_INFO,
        ensures
            Self::in_reply_is(self@, req, old(buf)@, final(buf)@, r),
    {
        let s = device_string();
        let n = min_usize(24, buf.len());
        Self::reply_prefix(buf, s.as_slice(), n)
    }

    /// READ_EEPROM: the 16-byte serial id, cut to the buffer.
    fn cmd_read_eeprom(&self, req: Request, buf: &mut [u8]) -> (r: Option<InResponse>)
        requires
            req.request_type == RequestType::Vendor,
            req.request == CMD_READ_EEPROM,
        ensures
            Self::in_reply_is(self@, req, old(buf)@, final(buf)@, r),
    {
        let id = serial_id();
        let n = min_usize(16, buf.len());
        Self::reply_prefix(buf, id.as_slice(), n)
    }

    /// SET_VOLTAGE read (older firmware): one byte 0x6F.
    fn cmd_set_voltage_legacy(&self, req: Request, buf: &mut [u8]) -> (r: Option<InResponse>)
        requires
            req.request_type == RequestType::Vendor,
            req.request == CMD_SET_VOLTAGE,
        ensures
            Self::in_reply_is(self@, req, old(buf)@, final(buf)@, r),
    {
        Self::reply_byte(buf, 0x6F)
    }

    /// GET_BUTTON: one byte, button not pressed.
    fn cmd_get_button(&self, req: Request, buf: &mut [u8]) -> (r: Option<InResponse>)
        requires
            req.request_type == RequestType::Vendor,
            req.request == CMD_GET_BUTTON,
        ensures
            Self::in_reply_is(self@, req, old(buf)@, final(buf)@, r),
    {
        Self::reply_byte(buf, 0x01)
    }

    /// CHECK_SOCKET: one byte 0x00, or an empty reply when the buffer has no
    /// room.
    fn cmd_check_socket(&self, req: Request, buf: &mut [u8]) -> (r: Option<InResponse>)
        requires
            req.request_type == RequestType::Vendor,
            req.request == CMD_CHECK_SOCKET,
        ensures
            Self::in_reply_is(self@, req, old(buf)@, final(buf)@, r),
    {
        if buf.len() > 0 {
            Self::reply_byte(buf, 0x00)
        } else {
            proof {
                assert(buf@ =~= Seq::<u8>::empty() + old(buf)@.skip(0));
            }
            Some(InResponse::Accepted { len: 0 })
        }
    }

    /// Handle a control IN request, writing the answer into the front of
    /// `buf`.
    pub fn control_in(&self, req: Request, buf: &mut [u8]) -> (r: Option<InResponse>)
        requires
            spec_in_fits(self@, req, old(buf)@.len()),
        ensures
            Self::in_reply_is(self@, req, old(buf)@, final(buf)@, r),
            final(buf)@.len() == old(buf)@.len(),
            r matches Some(InResponse::Accepted { len }) ==> len <= old(buf)@.len(),
    {
        proof {
            use_type_invariant(self);
        }
        if req.request_type != RequestType::Vendor {
            return None;
        }
        let cmd = req.request;
        if cmd == CMD_TRANSCEIVE {
            self.cmd_transceive_in(req, buf)
        } else if cmd == CMD_READ_EEPROM {
            self.cmd_read_eeprom(req, buf)
        } else if cmd == CMD_READ_PROG_INFO {
            self.cmd_read_prog_info(req, buf)
        } else if cmd == CMD_SET_VOLTAGE {
            self.cmd_set_voltage_legacy(req, buf)
        } else if cmd == CMD_GET_BUTTON {
            self.cmd_get_button(req, buf)
        } else if cmd == CMD_GET_UID {
            let u = uid();
            let n = min_usize(8, buf.len());
            Self::reply_prefix(buf, u.as_slice(), n)
        } else if cmd == CMD_READ_FPGA_VERSION {
            let v = fpga_version();
            let n = min_usize(min_usize(2, buf.len()), req.length as usize);
            Self::reply_prefix(buf, v.as_slice(), n)
        } else if cmd == CMD_CHECK_SOCKET {
            self.cmd_check_socket(req, buf)
        } else {
            None
        }
    }
}

} // verus!
