//! Wire format of the auxiliary 64-byte bulk packets (interface 1).
//!
//! A packet is `[kind, request_id, payload_len, payload...]`.

use vstd::prelude::*;

verus! {

pub const PACKET_LEN: usize = 64;
pub const HEADER_LEN: usize = 3;
pub const MAX_PAYLOAD_LEN: usize = 61;

pub const CMD_GPIO_GET_STATE: u8 = 0x01;
pub const CMD_GPIO_SET_DIRECTION: u8 = 0x02;
pub const CMD_GPIO_SET_OUTPUT: u8 = 0x03;
pub const CMD_GPIO_PULSE_LOW: u8 = 0x04;
pub const CMD_UART_SET_BAUD: u8 = 0x10;
pub const CMD_UART_WRITE: u8 = 0x11;

pub const EVT_RESPONSE: u8 = 0x80;
pub const EVT_GPIO_STATE: u8 = 0x81;
pub const EVT_UART_DATA: u8 = 0x90;

pub const STATUS_OK: u8 = 0;
pub const STATUS_INVALID: u8 = 1;
pub const STATUS_BUSY: u8 = 2;

pub const GPIO_RESET: u8 = 0x01;
pub const GPIO_POWER: u8 = 0x02;
pub const GPIO_POWER_STATE: u8 = 0x04;
pub const GPIO_AUX: u8 = 0x08;
pub const GPIO_COUNT: u8 = 4;

pub const CAP_OPEN_DRAIN: u8 = 0x01;
pub const CAP_PULSE: u8 = 0x02;

/// The payload a packet carries: the `payload_len` bytes after the header,
/// or `None` when the packet is shorter than its header or than the length
/// the header announces.
pub open spec fn spec_payload(packet: Seq<u8>) -> Option<Seq<u8>> {
    if packet.len() < HEADER_LEN {
        None
    } else if HEADER_LEN + packet[2] <= packet.len() {
        Some(packet.subrange(HEADER_LEN as int, HEADER_LEN + packet[2]))
    } else {
        None
    }
}

/// The bytes of a packet of the given kind and request id carrying `payload`.
pub open spec fn spec_frame(kind: u8, request_id: u8, payload: Seq<u8>) -> Seq<u8> {
    seq![kind, request_id, payload.len() as u8] + payload
}

/// Reading back a framed packet gives the framed payload, whatever bytes
/// follow the frame in the buffer (so `payload` inverts `encode`).
pub proof fn lemma_payload_of_frame(kind: u8, request_id: u8, p: Seq<u8>, tail: Seq<u8>)
    requires
        p.len() <= MAX_PAYLOAD_LEN,
    ensures
        spec_payload(spec_frame(kind, request_id, p) + tail) == Some(p),
        spec_frame(kind, request_id, p)[0] == kind,
        spec_frame(kind, request_id, p)[1] == request_id,
{
    let f = spec_frame(kind, request_id, p);
    let whole = f + tail;
    let h = seq![kind, request_id, p.len() as u8];
    assert(f[0] == h[0] && f[1] == h[1] && f[2] == h[2]);
    assert(whole[2] == p.len());
    assert(whole.subrange(HEADER_LEN as int, HEADER_LEN + p.len()) =~= p);
}

/// Extract the payload of a received packet.
pub fn payload(packet: &[u8]) -> (r: Option<&[u8]>)
    ensures
        r is Some <==> spec_payload(packet@) is Some,
        r matches Some(p) ==> p@ == spec_payload(packet@).unwrap(),
{
    if packet.len() < HEADER_LEN {
        return None;
    }
    let len = packet[2] as usize;
    let end = HEADER_LEN + len;
    if end <= packet.len() {
        Some(&packet[HEADER_LEN..end])
    } else {
        None
    }
}

/// Frame `payload` into `packet` and return the used prefix, or `None` (with
/// `packet` untouched) when the payload does not fit.
pub fn encode<'a>(packet: &'a mut [u8; PACKET_LEN], kind: u8, request_id: u8, payload: &[u8]) -> (r:
    Option<&'a [u8]>)
    ensures
        r is Some <==> payload@.len() <= MAX_PAYLOAD_LEN,
        r is None ==> final(packet)@ == old(packet)@,
        r matches Some(bytes) ==> {
            &&& bytes@ == spec_frame(kind, request_id, payload@)
            &&& final(packet)@ == spec_frame(kind, request_id, payload@) + old(packet)@.subrange(
                HEADER_LEN + payload@.len(),
                PACKET_LEN as int,
            )
        },
{
    if payload.len() > MAX_PAYLOAD_LEN {
        return None;
    }
    let n = payload.len();
    packet[0] = kind;
    packet[1] = request_id;
    packet[2] = n as u8;
    let ghost start = packet@;
    let mut i: usize = 0;
    while i < n
        invariant
            n == payload@.len(),
            n <= MAX_PAYLOAD_LEN,
            i <= n,
            packet@.len() == PACKET_LEN,
            start.len() == PACKET_LEN,
            start[0] == kind,
            start[1] == request_id,
            start[2] == n as u8,
            forall|j: int| HEADER_LEN <= j < PACKET_LEN ==> start[j] == old(packet)@[j],
            forall|j: int| 0 <= j < HEADER_LEN ==> packet@[j] == start[j],
            forall|j: int| HEADER_LEN <= j < HEADER_LEN + i ==> packet@[j] == payload@[j - HEADER_LEN],
            forall|j: int| HEADER_LEN + i <= j < PACKET_LEN ==> packet@[j] == start[j],
        decreases n - i,
    {
        packet[HEADER_LEN + i] = payload[i];
        i = i + 1;
    }
    proof {
        let f = spec_frame(kind, request_id, payload@);
        let rest = old(packet)@.subrange(HEADER_LEN + n, PACKET_LEN as int);
        assert(old(packet)@.len() == PACKET_LEN);
        assert(f.len() == HEADER_LEN + n);
        assert forall|j: int| 0 <= j < PACKET_LEN implies packet@[j] == (f + rest)[j] by {
            let h = seq![kind, request_id, payload@.len() as u8];
            if j < HEADER_LEN {
                assert((f + rest)[j] == f[j]);
                assert(f[j] == h[j]);
                assert(h[0] == kind && h[1] == request_id && h[2] == n as u8);
                assert(packet@[j] == start[j]);
            } else if j < HEADER_LEN + n {
                assert((f + rest)[j] == f[j]);
                assert(f[j] == payload@[j - HEADER_LEN]);
                assert(packet@[j] == payload@[j - HEADER_LEN]);
            } else {
                assert((f + rest)[j] == rest[j - f.len()]);
                assert(rest[j - f.len()] == old(packet)@[j]);
                assert(packet@[j] == start[j]);
            }
        }
        assert(packet@ =~= spec_frame(kind, request_id, payload@) + old(packet)@.subrange(
            HEADER_LEN + n,
            PACKET_LEN as int,
        ));
    }
    let out: &'a [u8] = &packet[0..HEADER_LEN + n];
    proof {
        assert(out@ =~= spec_frame(kind, request_id, payload@));
    }
    Some(out)
}

} // verus!
