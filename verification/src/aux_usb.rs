//! Decisions of the auxiliary link (interface 1): what a received command
//! packet asks for and what it is answered, how responses are framed, and
//! how UART bytes are batched into EVT_UART_DATA packets.

use vstd::prelude::*;

use crate::aux_protocol::{
    encode, payload, spec_frame, spec_payload, CMD_GPIO_GET_STATE, CMD_GPIO_PULSE_LOW,
    CMD_GPIO_SET_DIRECTION, CMD_GPIO_SET_OUTPUT, CMD_UART_SET_BAUD, CMD_UART_WRITE,
    EVT_RESPONSE, EVT_UART_DATA, MAX_PAYLOAD_LEN, PACKET_LEN, STATUS_BUSY, STATUS_INVALID,
    STATUS_OK,
};
use crate::protocol::{le16, le32};

verus! {

pub const MIN_BAUD: u32 = 300;
pub const MAX_BAUD: u32 = 3_000_000;

/// Bytes of response data after the command and status bytes.
pub const MAX_RESPONSE_DATA_LEN: usize = 59;

/// Delay (µs) after the first buffered UART byte before the batch is sent.
pub const UART_FLUSH_DELAY_US: u64 = 1000;

/// What a command asks the board to do.
#[derive(Debug)]
pub enum AuxAction {
    NoOp,
    SetDirection { mask: u8, direction: u8 },
    SetOutput { mask: u8, value: u8 },
    PulseLow { mask: u8, duration_ms: u16 },
    SetBaud { baudrate: u32 },
    UartWrite { data: Vec<u8> },
}

/// The outcome of a command packet.
#[derive(Debug)]
pub struct AuxDecision {
    pub command: u8,
    pub request_id: u8,
    pub status: u8,
    pub action: AuxAction,
    /// Whether an EVT_RESPONSE is sent back (request id other than 0).
    pub respond: bool,
    /// Whether the response carries the GPIO state.
    pub report_gpio_state: bool,
}

pub open spec fn spec_clamp_baud(raw: int) -> u32 {
    if raw < MIN_BAUD {
        MIN_BAUD
    } else if raw > MAX_BAUD {
        MAX_BAUD
    } else {
        raw as u32
    }
}

/// Status of a command with payload `data` when the UART transmit queue has
/// `uart_tx_free` free slots.
pub open spec fn spec_status(command: u8, data: Seq<u8>, uart_tx_free: nat) -> u8 {
    if command == CMD_GPIO_GET_STATE && data.len() == 0 {
        STATUS_OK
    } else if command == CMD_GPIO_SET_DIRECTION && data.len() == 2 {
        STATUS_OK
    } else if command == CMD_GPIO_SET_OUTPUT && data.len() == 2 {
        STATUS_OK
    } else if command == CMD_GPIO_PULSE_LOW && data.len() == 3 {
        STATUS_OK
    } else if command == CMD_UART_SET_BAUD && data.len() == 4 {
        STATUS_OK
    } else if command == CMD_UART_WRITE {
        if uart_tx_free >= data.len() {
            STATUS_OK
        } else {
            STATUS_BUSY
        }
    } else {
        STATUS_INVALID
    }
}

/// The action of an accepted command; `None` for GET_STATE and for every
/// command that was not accepted.
pub open spec fn spec_action_is(action: AuxAction, command: u8, data: Seq<u8>, status: u8) -> bool {
    match action {
        AuxAction::NoOp => status != STATUS_OK || command == CMD_GPIO_GET_STATE,
        AuxAction::SetDirection { mask, direction } => status == STATUS_OK && command
            == CMD_GPIO_SET_DIRECTION && mask == data[0] && direction == data[1],
        AuxAction::SetOutput { mask, value } => status == STATUS_OK && command
            == CMD_GPIO_SET_OUTPUT && mask == data[0] && value == data[1],
        AuxAction::PulseLow { mask, duration_ms } => status == STATUS_OK && command
            == CMD_GPIO_PULSE_LOW && mask == data[0] && duration_ms == le16(data[1], data[2]),
        AuxAction::SetBaud { baudrate } => status == STATUS_OK && command == CMD_UART_SET_BAUD
            && baudrate == spec_clamp_baud(le32(data[0], data[1], data[2], data[3])),
        AuxAction::UartWrite { data: bytes } => status == STATUS_OK && command == CMD_UART_WRITE
            && bytes@ == data,
    }
}

pub open spec fn spec_is_gpio_command(command: u8) -> bool {
    command == CMD_GPIO_GET_STATE || command == CMD_GPIO_SET_DIRECTION || command
        == CMD_GPIO_SET_OUTPUT || command == CMD_GPIO_PULSE_LOW
}

/// A PULSE_LOW with payload `[mask, lo, hi]` is accepted and pulses `mask`
/// low for `lo + 256 * hi` milliseconds, for every `lo` and `hi`.
pub proof fn lemma_pulse_low(action: AuxAction, data: Seq<u8>, uart_tx_free: nat)
    requires
        data.len() == 3,
        spec_action_is(action, CMD_GPIO_PULSE_LOW, data, spec_status(CMD_GPIO_PULSE_LOW, data, uart_tx_free)),
    ensures
        spec_status(CMD_GPIO_PULSE_LOW, data, uart_tx_free) == STATUS_OK,
        action == (AuxAction::PulseLow { mask: data[0], duration_ms: (data[1] + 256 * data[2]) as u16 }),
{
}

/// A UART_SET_BAUD with a little-endian rate `r` is accepted and sets the
/// rate to exactly `r` when `300 <= r <= 3_000_000`, to 300 below that range
/// and to 3_000_000 above it.
pub proof fn lemma_set_baud(action: AuxAction, data: Seq<u8>, uart_tx_free: nat)
    requires
        data.len() == 4,
        spec_action_is(action, CMD_UART_SET_BAUD, data, spec_status(CMD_UART_SET_BAUD, data, uart_tx_free)),
    ensures
        spec_status(CMD_UART_SET_BAUD, data, uart_tx_free) == STATUS_OK,
        action matches AuxAction::SetBaud { baudrate } && {
            let rate = data[0] + 256 * data[1] + 65536 * data[2] + 16777216 * data[3];
            &&& (MIN_BAUD <= rate <= MAX_BAUD ==> baudrate == rate)
            &&& (rate < MIN_BAUD ==> baudrate == MIN_BAUD)
            &&& (rate > MAX_BAUD ==> baudrate == MAX_BAUD)
        },
{
}

fn clamp_baud(raw: u32) -> (r: u32)
    ensures
        r == spec_clamp_baud(raw as int),
{
    if raw < MIN_BAUD {
        MIN_BAUD
    } else if raw > MAX_BAUD {
        MAX_BAUD
    } else {
        raw
    }
}

fn copy_bytes(data: &[u8]) -> (r: Vec<u8>)
    ensures
        r@ == data@,
{
    let mut v: Vec<u8> = Vec::new();
    let mut i: usize = 0;
    while i < data.len()
        invariant
            i <= data@.len(),
            v@ == data@.subrange(0, i as int),
        decreases data@.len() - i,
    {
        v.push(data[i]);
        i = i + 1;
        proof {
            assert(v@ =~= data@.subrange(0, i as int));
        }
    }
    proof {
        assert(data@.subrange(0, data@.len() as int) =~= data@);
    }
    v
}

/// Decide what a received packet asks for. Packets whose payload is cut
/// short are ignored (`None`). `uart_tx_free` is the free space of the UART
/// transmit queue: a UART_WRITE that does not fit is answered BUSY.
pub fn decide(packet: &[u8], uart_tx_free: usize) -> (r: Option<AuxDecision>)
    ensures
        r is Some <==> spec_payload(packet@) is Some,
        r matches Some(d) ==> {
            let data = spec_payload(packet@).unwrap();
            &&& d.command == packet@[0]
            &&& d.request_id == packet@[1]
            &&& d.status == spec_status(packet@[0], data, uart_tx_free as nat)
            &&& spec_action_is(d.action, packet@[0], data, d.status)
            &&& d.respond == (packet@[1] != 0)
            &&& d.report_gpio_state == (spec_is_gpio_command(packet@[0]) && d.status == STATUS_OK)
            &&& (packet@[0] == CMD_GPIO_PULSE_LOW && data.len() == 3) ==> {
                &&& d.status == STATUS_OK
                &&& d.action matches AuxAction::PulseLow { mask, duration_ms }
                &&& mask == data[0]
                &&& duration_ms == data[1] + 256 * data[2]
            }
            &&& (packet@[0] == CMD_UART_SET_BAUD && data.len() == 4) ==> {
                let rate = data[0] + 256 * data[1] + 65536 * data[2] + 16777216 * data[3];
                &&& d.status == STATUS_OK
                &&& d.action matches AuxAction::SetBaud { baudrate }
                &&& (MIN_BAUD <= rate <= MAX_BAUD ==> baudrate == rate)
                &&& (rate < MIN_BAUD ==> baudrate == MIN_BAUD)
                &&& (rate > MAX_BAUD ==> baudrate == MAX_BAUD)
            }
        },
{
    let data = match payload(packet) {
        Some(d) => d,
        None => return None,
    };
    let command = packet[0];
    let request_id = packet[1];
    let n = data.len();
    let (status, action) = if command == CMD_GPIO_GET_STATE && n == 0 {
        (STATUS_OK, AuxAction::NoOp)
    } else if command == CMD_GPIO_SET_DIRECTION && n == 2 {
        (STATUS_OK, AuxAction::SetDirection { mask: data[0], direction: data[1] })
    } else if command == CMD_GPIO_SET_OUTPUT && n == 2 {
        (STATUS_OK, AuxAction::SetOutput { mask: data[0], value: data[1] })
    } else if command == CMD_GPIO_PULSE_LOW && n == 3 {
        let duration_ms: u16 = data[1] as u16 + (data[2] as u16) * 256;
        (STATUS_OK, AuxAction::PulseLow { mask: data[0], duration_ms })
    } else if command == CMD_UART_SET_BAUD && n == 4 {
        let raw: u32 = data[0] as u32 + (data[1] as u32) * 256 + (data[2] as u32) * 65536 + (
        data[3] as u32) * 16777216;
        (STATUS_OK, AuxAction::SetBaud { baudrate: clamp_baud(raw) })
    } else if command == CMD_UART_WRITE {
        if uart_tx_free >= n {
            (STATUS_OK, AuxAction::UartWrite { data: copy_bytes(data) })
        } else {
            (STATUS_BUSY, AuxAction::NoOp)
        }
    } else {
        (STATUS_INVALID, AuxAction::NoOp)
    };
    let report_gpio_state = (command == CMD_GPIO_GET_STATE || command == CMD_GPIO_SET_DIRECTION
        || command == CMD_GPIO_SET_OUTPUT || command == CMD_GPIO_PULSE_LOW) && status == STATUS_OK;
    Some(
        AuxDecision {
            command,
            request_id,
            status,
            action,
            respond: request_id != 0,
            report_gpio_state,
        },
    )
}

/// Response data as sent: at most `MAX_RESPONSE_DATA_LEN` bytes of `data`.
pub open spec fn spec_response_payload(command: u8, status: u8, data: Seq<u8>) -> Seq<u8> {
    seq![command, status] + data.take(
        if data.len() <= MAX_RESPONSE_DATA_LEN {
            data.len() as int
        } else {
            MAX_RESPONSE_DATA_LEN as int
        },
    )
}

/// Frame the EVT_RESPONSE packet for a command: `[command, status, data...]`
/// with `data` cut to `MAX_RESPONSE_DATA_LEN` bytes.
pub fn encode_response<'a>(
    packet: &'a mut [u8; PACKET_LEN],
    request_id: u8,
    command: u8,
    status: u8,
    data: &[u8],
) -> (r: &'a [u8])
    ensures
        r@ == spec_frame(EVT_RESPONSE, request_id, spec_response_payload(command, status, data@)),
{
    let n = if data.len() <= MAX_RESPONSE_DATA_LEN {
        data.len()
    } else {
        MAX_RESPONSE_DATA_LEN
    };
    let mut response: Vec<u8> = Vec::new();
    response.push(command);
    response.push(status);
    let mut i: usize = 0;
    while i < n
        invariant
            n <= data@.len(),
            n <= MAX_RESPONSE_DATA_LEN,
            i <= n,
            response@ == seq![command, status] + data@.take(i as int),
        decreases n - i,
    {
        response.push(data[i]);
        i = i + 1;
        proof {
            assert(response@ =~= seq![command, status] + data@.take(i as int));
        }
    }
    match encode(packet, EVT_RESPONSE, request_id, response.as_slice()) {
        Some(bytes) => bytes,
        None => {
            proof {
                assert(false);
            }
            &[]
        },
    }
}

/// Batches UART bytes into EVT_UART_DATA packets: a batch is sent when it
/// fills a packet, or when the flush timer set by its first byte fires.
pub struct UartBatcher {
    buf: [u8; MAX_PAYLOAD_LEN],
    len: usize,
    deadline_us: Option<u64>,
}

/// Buffering one byte: returns the batch to send, if the byte fills a
/// packet, and the bytes still pending.
pub open spec fn spec_push(pending: Seq<u8>, byte: u8) -> (Option<Seq<u8>>, Seq<u8>) {
    if pending.len() + 1 == MAX_PAYLOAD_LEN {
        (Some(pending.push(byte)), Seq::empty())
    } else {
        (None, pending.push(byte))
    }
}

/// Buffering a run of bytes: everything sent, in order, and what is left.
pub open spec fn spec_push_all(pending: Seq<u8>, bytes: Seq<u8>) -> (Seq<u8>, Seq<u8>)
    decreases bytes.len(),
{
    if bytes.len() == 0 {
        (Seq::empty(), pending)
    } else {
        let (sent, rest) = spec_push(pending, bytes[0]);
        let (later, left) = spec_push_all(rest, bytes.drop_first());
        (
            match sent {
                Some(batch) => batch + later,
                None => later,
            },
            left,
        )
    }
}

/// UART bytes are forwarded in order and none is lost: what has been sent
/// followed by what is still pending is what was pending followed by the
/// new bytes, and fewer than a packet's worth stays pending.
pub proof fn lemma_uart_bytes_in_order(pending: Seq<u8>, bytes: Seq<u8>)
    requires
        pending.len() < MAX_PAYLOAD_LEN,
    ensures
        spec_push_all(pending, bytes).0 + spec_push_all(pending, bytes).1 == pending + bytes,
        spec_push_all(pending, bytes).1.len() < MAX_PAYLOAD_LEN,
    decreases bytes.len(),
{
    if bytes.len() == 0 {
        assert(Seq::<u8>::empty() + pending =~= pending + bytes);
    } else {
        let (sent, rest) = spec_push(pending, bytes[0]);
        lemma_uart_bytes_in_order(rest, bytes.drop_first());
        let (later, left) = spec_push_all(rest, bytes.drop_first());
        assert(later + left == rest + bytes.drop_first());
        assert(bytes =~= seq![bytes[0]] + bytes.drop_first());
        match sent {
            Some(batch) => {
                assert(batch + later + left =~= pending + bytes);
            },
            None => {
                assert(later + left =~= pending + bytes);
            },
        }
    }
}

/// An event of the UART batching loop: a received byte, or the flush timer.
pub enum UartEvent {
    Byte(u8),
    Timer,
}

/// One event: a byte is buffered as `spec_push` says; the timer sends the
/// pending batch, if any, and leaves nothing pending.
pub open spec fn spec_uart_step(pending: Seq<u8>, event: UartEvent) -> (Option<Seq<u8>>, Seq<u8>) {
    match event {
        UartEvent::Byte(b) => spec_push(pending, b),
        UartEvent::Timer => if pending.len() > 0 {
            (Some(pending), Seq::empty())
        } else {
            (None, Seq::empty())
        },
    }
}

/// The bytes received in a run of events.
pub open spec fn spec_received(events: Seq<UartEvent>) -> Seq<u8>
    decreases events.len(),
{
    if events.len() == 0 {
        Seq::empty()
    } else {
        match events[0] {
            UartEvent::Byte(b) => seq![b] + spec_received(events.drop_first()),
            UartEvent::Timer => spec_received(events.drop_first()),
        }
    }
}

/// The batches sent during a run of events, in order, and what is left
/// pending.
pub open spec fn spec_uart_run(pending: Seq<u8>, events: Seq<UartEvent>) -> (Seq<Seq<u8>>, Seq<u8>)
    decreases events.len(),
{
    if events.len() == 0 {
        (Seq::empty(), pending)
    } else {
        let (sent, rest) = spec_uart_step(pending, events[0]);
        let (later, left) = spec_uart_run(rest, events.drop_first());
        (
            match sent {
                Some(batch) => seq![batch] + later,
                None => later,
            },
            left,
        )
    }
}

/// The batches joined in order.
pub open spec fn spec_concat(batches: Seq<Seq<u8>>) -> Seq<u8>
    decreases batches.len(),
{
    if batches.len() == 0 {
        Seq::empty()
    } else {
        batches[0] + spec_concat(batches.drop_first())
    }
}

/// UART bytes are forwarded in order, none lost or repeated, however byte
/// arrivals and flush-timer expiries interleave: the sent batches joined,
/// followed by what is pending, are what was pending followed by the bytes
/// received. Every batch holds 1 to `MAX_PAYLOAD_LEN` bytes.
pub proof fn lemma_uart_run_in_order(pending: Seq<u8>, events: Seq<UartEvent>)
    requires
        pending.len() < MAX_PAYLOAD_LEN,
    ensures
        spec_concat(spec_uart_run(pending, events).0) + spec_uart_run(pending, events).1 == pending
            + spec_received(events),
        forall|i: int|
            0 <= i < spec_uart_run(pending, events).0.len() ==> 0 < (
            #[trigger] spec_uart_run(pending, events).0[i]).len() <= MAX_PAYLOAD_LEN,
        spec_uart_run(pending, events).1.len() < MAX_PAYLOAD_LEN,
    decreases events.len(),
{
    if events.len() == 0 {
        assert(spec_concat(Seq::<Seq<u8>>::empty()) + pending =~= pending + spec_received(events));
    } else {
        let (sent, rest) = spec_uart_step(pending, events[0]);
        let tail = events.drop_first();
        lemma_uart_run_in_order(rest, tail);
        let (later, left) = spec_uart_run(rest, tail);
        let batches = spec_uart_run(pending, events).0;
        match sent {
            Some(batch) => {
                let whole = seq![batch] + later;
                assert(whole[0] == batch);
                assert(whole.drop_first() =~= later);
                assert(spec_concat(whole) == batch + spec_concat(later));
                assert forall|i: int| 0 <= i < whole.len() implies 0 < (#[trigger] whole[i]).len()
                    <= MAX_PAYLOAD_LEN by {
                    if i > 0 {
                        assert(whole[i] == later[i - 1]);
                    }
                }
            },
            None => {},
        }
        match events[0] {
            UartEvent::Byte(b) => {
                assert(spec_received(events) == seq![b] + spec_received(tail));
                match sent {
                    Some(batch) => {
                        assert(batch + spec_concat(later) + left =~= pending + spec_received(events));
                    },
                    None => {
                        assert(spec_concat(later) + left =~= pending + spec_received(events));
                    },
                }
            },
            UartEvent::Timer => {
                assert(spec_received(events) == spec_received(tail));
                match sent {
                    Some(batch) => {
                        assert(batch + spec_concat(later) + left =~= pending + spec_received(events));
                    },
                    None => {
                        assert(pending =~= Seq::<u8>::empty());
                        assert(spec_concat(later) + left =~= pending + spec_received(events));
                    },
                }
            },
        }
    }
}

impl UartBatcher {
    #[verifier::type_invariant]
    spec fn inv(self) -> bool {
        self.len < MAX_PAYLOAD_LEN
    }

    /// Bytes received but not yet sent.
    pub closed spec fn pending(self) -> Seq<u8> {
        self.buf@.subrange(0, self.len as int)
    }

    /// When the pending batch is due, if any is armed.
    pub closed spec fn spec_deadline(self) -> Option<u64> {
        self.deadline_us
    }

    pub fn new() -> (r: Self)
        ensures
            r.pending() == Seq::<u8>::empty(),
            r.spec_deadline() is None,
    {
        let r = UartBatcher { buf: [0u8; MAX_PAYLOAD_LEN], len: 0, deadline_us: None };
        proof {
            assert(r.pending() =~= Seq::<u8>::empty());
        }
        r
    }

    /// The instant (µs) at which the pending batch must be sent.
    pub fn deadline(&self) -> (r: Option<u64>)
        ensures
            r == self.spec_deadline(),
    {
        self.deadline_us
    }

    /// Buffer one received UART byte at `now_us`. The first byte of a batch
    /// arms the flush timer; the byte that fills a packet sends the batch
    /// (framed into `packet`) and disarms it.
    pub fn push<'a>(&mut self, byte: u8, now_us: u64, packet: &'a mut [u8; PACKET_LEN]) -> (r:
        Option<&'a [u8]>)
        requires
            old(self).pending().len() == 0 ==> now_us + UART_FLUSH_DELAY_US <= u64::MAX,
        ensures
            ({
                let (sent, rest) = spec_push(old(self).pending(), byte);
                &&& final(self).pending() == rest
                &&& old(self).pending().len() < MAX_PAYLOAD_LEN
                &&& r is Some <==> sent is Some
                &&& r matches Some(bytes) ==> bytes@ == spec_frame(EVT_UART_DATA, 0, sent.unwrap())
                &&& final(self).spec_deadline() == (if sent is Some {
                    None
                } else if old(self).pending().len() == 0 {
                    Some((now_us + UART_FLUSH_DELAY_US) as u64)
                } else {
                    old(self).spec_deadline()
                })
            }),
    {
        proof {
            use_type_invariant(&*self);
        }
        let ghost old_pending = self.pending();
        if self.len == 0 {
            self.deadline_us = Some(now_us + UART_FLUSH_DELAY_US);
        }
        if self.len + 1 == MAX_PAYLOAD_LEN {
            self.buf[self.len] = byte;
            let n = self.len + 1;
            self.len = 0;
            self.deadline_us = None;
            let batch = self.buf.as_slice();
            proof {
                assert(self.buf@.subrange(0, n as int) =~= old_pending.push(byte));
            }
            let batch = &batch[0..n];
            match encode(packet, EVT_UART_DATA, 0, batch) {
                Some(bytes) => {
                    proof {
                        assert(self.pending() =~= Seq::<u8>::empty());
                    }
                    Some(bytes)
                },
                None => {
                    proof {
                        assert(false);
                    }
                    None
                },
            }
        } else {
            let i = self.len;
            self.buf[i] = byte;
            self.len = i + 1;
            proof {
                assert(self.pending() =~= old_pending.push(byte));
            }
            None
        }
    }

    /// The flush timer fired: send the pending batch, if any, framed into
    /// `packet`, and disarm the timer.
    pub fn flush<'a>(&mut self, packet: &'a mut [u8; PACKET_LEN]) -> (r: Option<&'a [u8]>)
        ensures
            r is Some <==> old(self).pending().len() > 0,
            r matches Some(bytes) ==> bytes@ == spec_frame(EVT_UART_DATA, 0, old(self).pending()),
            r is Some <==> spec_uart_step(old(self).pending(), UartEvent::Timer).0 is Some,
            final(self).pending() == spec_uart_step(old(self).pending(), UartEvent::Timer).1,
            final(self).pending() == Seq::<u8>::empty(),
            final(self).spec_deadline() is None,
    {
        proof {
            use_type_invariant(&*self);
        }
        let ghost old_pending = self.pending();
        let n = self.len;
        self.len = 0;
        self.deadline_us = None;
        proof {
            assert(self.pending() =~= Seq::<u8>::empty());
        }
        if n == 0 {
            return None;
        }
        let all = self.buf.as_slice();
        let batch = &all[0..n];
        proof {
            assert(batch@ =~= old_pending);
        }
        match encode(packet, EVT_UART_DATA, 0, batch) {
            Some(bytes) => Some(bytes),
            None => {
                proof {
                    assert(false);
                }
                None
            },
        }
    }
}

} // verus!
