use vstd::prelude::*;
use vstd::bytes::{spec_u64_to_le_bytes, u64_to_le_bytes};

verus! {

/// Packet start byte `$`.
pub const PACKET_START: u8 = 0x24;
/// Checksum separator byte `#`.
pub const PACKET_END: u8 = 0x23;
/// Interrupt byte (Ctrl-C) sent by the client outside a packet.
pub const INTERRUPT: u8 = 0x03;
/// Acknowledgment byte `+`.
pub const ACK: u8 = 0x2B;

/// Lower-case hexadecimal digit of `d` (below 16).
pub open spec fn hex_digit(d: int) -> u8 {
    if d < 10 {
        (0x30 + d) as u8
    } else {
        (0x61 + d - 10) as u8
    }
}

/// The two lower-case hexadecimal digits of `b`.
pub open spec fn hex_byte(b: u8) -> Seq<u8> {
    seq![hex_digit((b / 16) as int), hex_digit((b % 16) as int)]
}

/// Modulo-256 sum of the bytes.
pub open spec fn checksum(data: Seq<u8>) -> u8
    decreases data.len(),
{
    if data.len() == 0 {
        0
    } else {
        ((checksum(data.drop_last()) + data.last()) % 256) as u8
    }
}

/// The framed packet for `data`: `$`, the data, `#`, and the checksum in
/// two lower-case hexadecimal digits.
pub open spec fn framed(data: Seq<u8>) -> Seq<u8> {
    seq![PACKET_START] + data + seq![PACKET_END] + hex_byte(checksum(data))
}

/// The reply for a register read: each value as its 8 little-endian bytes,
/// each byte as two lower-case hexadecimal digits.
pub open spec fn register_hex(values: Seq<u64>) -> Seq<u8>
    decreases values.len(),
{
    if values.len() == 0 {
        Seq::empty()
    } else {
        register_hex(values.drop_last()) + u64_hex(values.last())
    }
}

/// `v`'s 8 little-endian bytes as 16 lower-case hexadecimal digits.
pub open spec fn u64_hex(v: u64) -> Seq<u8> {
    Seq::new(16, |i: int| {
        let b = spec_u64_to_le_bytes(v)[i / 2];
        if i % 2 == 0 { hex_digit((b / 16) as int) } else { hex_digit((b % 16) as int) }
    })
}

/// `S05`: stopped by SIGTRAP.
pub open spec fn stop_reply_bytes() -> Seq<u8> {
    seq![0x53u8, 0x30, 0x35]
}

/// `E01`: the registers could not be read.
pub open spec fn error_reply_bytes() -> Seq<u8> {
    seq![0x45u8, 0x30, 0x31]
}

/// `vCtrlC`: what an interrupt byte reads as.
pub open spec fn interrupt_packet() -> Seq<u8> {
    seq![0x76u8, 0x43, 0x74, 0x72, 0x6C, 0x43]
}

/// Lower-case hexadecimal digit of `d`.
fn hex_digit_exec(d: u8) -> (c: u8)
    requires
        d < 16,
    ensures
        c == hex_digit(d as int),
{
    if d < 10 {
        0x30 + d
    } else {
        0x61 + d - 10
    }
}

/// Frames `data` as a GDB remote protocol packet: `$data#cc` where `cc` is
/// the modulo-256 sum of the data bytes in lower-case hexadecimal.
pub fn encode_packet(data: &[u8]) -> (packet: Vec<u8>)
    ensures
        packet@ == framed(data@),
{
    let mut packet: Vec<u8> = Vec::new();
    packet.push(PACKET_START);
    let mut sum: u8 = 0;
    let n = data.len();
    let mut i: usize = 0;
    while i < n
        invariant
            n == data@.len(),
            i <= n,
            sum == checksum(data@.take(i as int)),
            packet@ == seq![PACKET_START] + data@.take(i as int),
        decreases n - i,
    {
        let b = data[i];
        assert(data@.take(i + 1).drop_last() == data@.take(i as int));
        sum = ((sum as u16 + b as u16) % 256) as u8;
        packet.push(b);
        assert(packet@ == seq![PACKET_START] + data@.take(i + 1));
        i += 1;
    }
    assert(data@.take(n as int) == data@);
    packet.push(PACKET_END);
    packet.push(hex_digit_exec(sum / 16));
    packet.push(hex_digit_exec(sum % 16));
    assert(packet@ =~= framed(data@));
    packet
}

/// `S05`, the stop reply.
pub fn stop_reply() -> (r: Vec<u8>)
    ensures
        r@ == stop_reply_bytes(),
{
    let r = vec![0x53u8, 0x30, 0x35];
    assert(r@ =~= stop_reply_bytes());
    r
}

/// The reply to a register read request: the values' hexadecimal dump, or
/// `E01` when they could not be read.
pub fn registers_reply(values: Option<Vec<u64>>) -> (r: Vec<u8>)
    ensures
        match values {
            Some(v) => r@ == register_hex(v@),
            None => r@ == error_reply_bytes(),
        },
{
    match values {
        None => {
            let r = vec![0x45u8, 0x30, 0x31];
            assert(r@ =~= error_reply_bytes());
            r
        },
        Some(v) => {
            let mut r: Vec<u8> = Vec::new();
            let n = v.len();
            let mut i: usize = 0;
            while i < n
                invariant
                    n == v@.len(),
                    i <= n,
                    r@ == register_hex(v@.take(i as int)),
                decreases n - i,
            {
                let bytes = u64_to_le_bytes(v[i]);
                let ghost before = r@;
                let mut j: usize = 0;
                while j < 8
                    invariant
                        bytes@ == spec_u64_to_le_bytes(v@[i as int]),
                        bytes@.len() == 8,
                        j <= 8,
                        r@ == before + u64_hex(v@[i as int]).take(2 * j),
                    decreases 8 - j,
                {
                    let b = bytes[j];
                    r.push(hex_digit_exec(b / 16));
                    r.push(hex_digit_exec(b % 16));
                    assert(r@ =~= before + u64_hex(v@[i as int]).take(2 * (j + 1)));
                    j += 1;
                }
                assert(v@.take(i + 1).drop_last() == v@.take(i as int));
                assert(u64_hex(v@[i as int]).take(16) == u64_hex(v@[i as int]));
                i += 1;
            }
            assert(v@.take(n as int) == v@);
            r
        },
    }
}

/// What a received packet asks of the debug stub.
#[derive(Debug)]
pub enum GdbCommand {
    /// An empty packet: nothing to do.
    Ignore,
    /// Send `reply`.
    Reply { reply: Vec<u8> },
    /// Read the general registers and send them (`g`).
    ReadRegisters,
    /// Leave the debugger and continue execution (`c` or `vCont;c`).
    Resume,
}

/// `packet` equals the given bytes.
fn bytes_equal(packet: &[u8], expected: &[u8]) -> (eq: bool)
    ensures
        eq == (packet@ == expected@),
{
    if packet.len() != expected.len() {
        return false;
    }
    let n = packet.len();
    let mut i: usize = 0;
    while i < n
        invariant
            n == packet@.len(),
            n == expected@.len(),
            i <= n,
            forall|k: int| 0 <= k < i ==> packet@[k] == expected@[k],
        decreases n - i,
    {
        if packet[i] != expected[i] {
            return false;
        }
        i += 1;
    }
    assert(packet@ =~= expected@);
    true
}

/// Decides what to do with a received packet: `?` is answered with `S05`,
/// `g` reads the registers, `c` and `vCont;c` resume, an empty packet is
/// ignored, and anything else gets an empty reply.
pub fn gdb_command(packet: &[u8]) -> (cmd: GdbCommand)
    ensures
        packet@.len() == 0 ==> cmd == GdbCommand::Ignore,
        packet@ == seq![0x3Fu8] ==> (cmd matches GdbCommand::Reply { reply } && reply@ == stop_reply_bytes()),
        packet@ == seq![0x67u8] ==> cmd == GdbCommand::ReadRegisters,
        packet@ == seq![0x63u8] || packet@ == seq![0x76u8, 0x43, 0x6F, 0x6E, 0x74, 0x3B, 0x63]
            ==> cmd == GdbCommand::Resume,
        packet@.len() != 0 && packet@ != seq![0x3Fu8] && packet@ != seq![0x67u8] && packet@ != seq![0x63u8]
            && packet@ != seq![0x76u8, 0x43, 0x6F, 0x6E, 0x74, 0x3B, 0x63]
            ==> (cmd matches GdbCommand::Reply { reply } && reply@.len() == 0),
{
    if packet.len() == 0 {
        return GdbCommand::Ignore;
    }
    let query = [0x3Fu8];
    let read = [0x67u8];
    let cont = [0x63u8];
    let vcont = [0x76u8, 0x43, 0x6F, 0x6E, 0x74, 0x3B, 0x63];
    assert(query@ == seq![0x3Fu8]);
    assert(read@ == seq![0x67u8]);
    assert(cont@ == seq![0x63u8]);
    assert(vcont@ == seq![0x76u8, 0x43, 0x6F, 0x6E, 0x74, 0x3B, 0x63]);
    if bytes_equal(packet, &query) {
        GdbCommand::Reply { reply: stop_reply() }
    } else if bytes_equal(packet, &read) {
        GdbCommand::ReadRegisters
    } else if bytes_equal(packet, &cont) || bytes_equal(packet, &vcont) {
        GdbCommand::Resume
    } else {
        GdbCommand::Reply { reply: Vec::new() }
    }
}

/// Where the packet decoder stands.
pub enum DecoderView {
    /// Between packets.
    Idle,
    /// Inside a packet, holding the bytes received so far.
    Body { packet: Seq<u8> },
    /// After `#`, waiting for `remaining` checksum bytes.
    Checksum { packet: Seq<u8>, remaining: u8 },
}

/// One step of the decoder on byte `b`: the next state and, when a packet
/// ends, the packet and whether it is to be acknowledged. `$` (re)starts a
/// packet anywhere but in the checksum; `#` ends the body and two checksum
/// bytes (not checked) follow; outside a packet, an interrupt byte reads as
/// the packet `vCtrlC`, unacknowledged, and other bytes are dropped.
pub open spec fn decode_step(s: DecoderView, b: u8) -> (DecoderView, Option<(Seq<u8>, bool)>) {
    match s {
        DecoderView::Checksum { packet, remaining } => {
            if remaining > 1 {
                (DecoderView::Checksum { packet, remaining: (remaining - 1) as u8 }, None)
            } else {
                (DecoderView::Idle, Some((packet, true)))
            }
        },
        DecoderView::Idle => {
            if b == PACKET_START {
                (DecoderView::Body { packet: Seq::empty() }, None)
            } else if b == INTERRUPT {
                (DecoderView::Idle, Some((interrupt_packet(), false)))
            } else {
                (DecoderView::Idle, None)
            }
        },
        DecoderView::Body { packet } => {
            if b == PACKET_START {
                (DecoderView::Body { packet: Seq::empty() }, None)
            } else if b == PACKET_END {
                (DecoderView::Checksum { packet, remaining: 2 }, None)
            } else {
                (DecoderView::Body { packet: packet.push(b) }, None)
            }
        },
    }
}

/// The decoder's state and last event after feeding `bytes` from state `s`.
pub open spec fn decode_run(s: DecoderView, bytes: Seq<u8>) -> (DecoderView, Option<(Seq<u8>, bool)>)
    decreases bytes.len(),
{
    if bytes.len() == 0 {
        (s, None)
    } else {
        decode_step(decode_run(s, bytes.drop_last()).0, bytes.last())
    }
}

/// What feeding one byte produced.
#[derive(Debug)]
pub enum DecodeEvent {
    /// No packet completed yet.
    Pending,
    /// A packet completed; when `ack` is set the sender expects `+`.
    Packet { packet: Vec<u8>, ack: bool },
}

/// The completed packet of an event, if any.
pub open spec fn event_view(e: DecodeEvent) -> Option<(Seq<u8>, bool)> {
    match e {
        DecodeEvent::Pending => None,
        DecodeEvent::Packet { packet, ack } => Some((packet@, ack)),
    }
}

/// Incremental decoder of GDB remote protocol packets, fed one received
/// byte at a time.
pub struct PacketDecoder {
    phase: u8,
    packet: Vec<u8>,
    remaining: u8,
}

impl View for PacketDecoder {
    type V = DecoderView;

    closed spec fn view(&self) -> DecoderView {
        if self.phase == 0 {
            DecoderView::Idle
        } else if self.phase == 1 {
            DecoderView::Body { packet: self.packet@ }
        } else {
            DecoderView::Checksum { packet: self.packet@, remaining: self.remaining }
        }
    }
}

impl PacketDecoder {
    /// A decoder between packets.
    pub fn new() -> (d: Self)
        ensures
            d@ == DecoderView::Idle,
    {
        PacketDecoder { phase: 0, packet: Vec::new(), remaining: 0 }
    }

    /// Feeds one received byte.
    pub fn feed(&mut self, byte: u8) -> (event: DecodeEvent)
        ensures
            (final(self)@, event_view(event)) == decode_step(old(self)@, byte),
    {
        if self.phase >= 2 {
            if self.remaining > 1 {
                self.remaining = self.remaining - 1;
                DecodeEvent::Pending
            } else {
                self.phase = 0;
                let mut packet = Vec::new();
                std::mem::swap(&mut packet, &mut self.packet);
                DecodeEvent::Packet { packet, ack: true }
            }
        } else if self.phase == 0 {
            if byte == PACKET_START {
                self.phase = 1;
                self.packet = Vec::new();
                DecodeEvent::Pending
            } else if byte == INTERRUPT {
                let packet = vec![0x76u8, 0x43, 0x74, 0x72, 0x6C, 0x43];
                assert(packet@ =~= interrupt_packet());
                DecodeEvent::Packet { packet, ack: false }
            } else {
                DecodeEvent::Pending
            }
        } else {
            if byte == PACKET_START {
                self.packet = Vec::new();
                DecodeEvent::Pending
            } else if byte == PACKET_END {
                self.phase = 2;
                self.remaining = 2;
                DecodeEvent::Pending
            } else {
                self.packet.push(byte);
                DecodeEvent::Pending
            }
        }
    }
}

/// Feeding a fresh decoder `$` and then the bytes of `data` (none of them
/// `$` or `#`) leaves it inside the packet, holding exactly those bytes.
proof fn lemma_decode_body(data: Seq<u8>, k: nat)
    requires
        k <= data.len(),
        forall|i: int| 0 <= i < data.len() ==> data[i] != PACKET_START && data[i] != PACKET_END,
    ensures
        decode_run(DecoderView::Idle, seq![PACKET_START] + data.take(k as int))
            == (DecoderView::Body { packet: data.take(k as int) }, None::<(Seq<u8>, bool)>),
    decreases k,
{
    let bytes = seq![PACKET_START] + data.take(k as int);
    if k == 0 {
        assert(bytes.drop_last() =~= Seq::<u8>::empty());
        assert(data.take(0) =~= Seq::<u8>::empty());
        assert(decode_run(DecoderView::Idle, bytes.drop_last()) == (DecoderView::Idle, None::<(Seq<u8>, bool)>));
        assert(bytes.last() == PACKET_START);
    } else {
        lemma_decode_body(data, (k - 1) as nat);
        assert(bytes.drop_last() =~= seq![PACKET_START] + data.take(k - 1));
        assert(bytes.last() == data[k - 1]);
        assert(data.take(k - 1).push(data[k - 1]) =~= data.take(k as int));
        assert(decode_run(DecoderView::Idle, bytes.drop_last()).0 == DecoderView::Body { packet: data.take(k - 1) });
    }
    assert(decode_run(DecoderView::Idle, bytes) == decode_step(decode_run(DecoderView::Idle, bytes.drop_last()).0, bytes.last()));
}

/// A framed packet decodes back to its data: feeding `framed(data)` to a
/// fresh decoder ends between packets with `data` as the completed,
/// acknowledged packet, provided the data holds neither `$` nor `#`.
pub proof fn decode_framed_packet(data: Seq<u8>)
    requires
        forall|i: int| 0 <= i < data.len() ==> data[i] != PACKET_START && data[i] != PACKET_END,
    ensures
        decode_run(DecoderView::Idle, framed(data)) == (DecoderView::Idle, Some((data, true))),
{
    let f = framed(data);
    lemma_decode_body(data, data.len());
    assert(data.take(data.len() as int) =~= data);
    let body = seq![PACKET_START] + data;
    let with_end = body.push(PACKET_END);
    let with_hi = with_end.push(hex_byte(checksum(data))[0]);
    assert(f =~= with_hi.push(hex_byte(checksum(data))[1]));
    assert(f.drop_last() =~= with_hi);
    assert(with_hi.drop_last() =~= with_end);
    assert(with_end.drop_last() =~= body);
    assert(decode_run(DecoderView::Idle, body).0 == DecoderView::Body { packet: data });
    assert(decode_run(DecoderView::Idle, with_end).0 == DecoderView::Checksum { packet: data, remaining: 2 });
    assert(decode_run(DecoderView::Idle, with_hi).0 == DecoderView::Checksum { packet: data, remaining: 1 });
}

/// The value of a lower-case hexadecimal digit (`0`-`9`, `a`-`f`), or
/// `None` for any other byte.
pub open spec fn hex_value(c: u8) -> Option<int> {
    if 0x30 <= c <= 0x39 {
        Some(c - 0x30)
    } else if 0x61 <= c <= 0x66 {
        Some(c - 0x61 + 10)
    } else {
        None
    }
}

/// Every nibble is written as a lower-case hexadecimal digit that reads
/// back as that nibble.
pub proof fn hex_digit_reads_back(d: int)
    requires
        0 <= d < 16,
    ensures
        hex_value(hex_digit(d)) == Some(d),
{
}

/// The two digits that end a framed packet are lower-case hexadecimal and
/// read back as the packet's checksum, the modulo-256 sum of its data.
pub proof fn framed_checksum_reads_back(data: Seq<u8>)
    ensures
        framed(data).len() == data.len() + 4,
        framed(data)[0] == PACKET_START,
        framed(data).subrange(1, data.len() + 1 as int) == data,
        framed(data)[data.len() + 1 as int] == PACKET_END,
        hex_value(framed(data)[data.len() + 2 as int]) matches Some(hi)
            && hex_value(framed(data)[data.len() + 3 as int]) matches Some(lo)
            && hi * 16 + lo == checksum(data) as int,
{
    let f = framed(data);
    let c = checksum(data);
    assert(f.subrange(1, data.len() + 1 as int) =~= data);
    assert(f[data.len() + 2 as int] == hex_digit((c / 16) as int));
    assert(f[data.len() + 3 as int] == hex_digit((c % 16) as int));
    hex_digit_reads_back((c / 16) as int);
    hex_digit_reads_back((c % 16) as int);
}

/// Digits `2k` and `2k + 1` of a register's dump are lower-case hexadecimal
/// and read back as byte `k` of its little-endian encoding.
pub proof fn register_digits_read_back(v: u64, k: int)
    requires
        0 <= k < 8,
    ensures
        u64_hex(v).len() == 16,
        hex_value(u64_hex(v)[2 * k]) matches Some(hi)
            && hex_value(u64_hex(v)[2 * k + 1]) matches Some(lo)
            && hi * 16 + lo == spec_u64_to_le_bytes(v)[k] as int,
{
    let b = spec_u64_to_le_bytes(v)[k];
    assert((2 * k) / 2 == k);
    assert((2 * k + 1) / 2 == k);
    hex_digit_reads_back((b / 16) as int);
    hex_digit_reads_back((b % 16) as int);
}

} // verus!
