use vstd::prelude::*;
use vstd::utf8::{decode_utf8, valid_utf8};

verus! {

/// Standard base I/O port of COM1.
pub const COM1_PORT: u16 = 0x3F8;

/// The text that flushing a buffer holding `bytes` hands to the host console:
/// nothing for an empty buffer or one that is not valid UTF-8.
pub open spec fn flush_text(bytes: Seq<u8>) -> Option<Seq<char>> {
    if bytes.len() > 0 && valid_utf8(bytes) {
        Some(decode_utf8(bytes))
    } else {
        None
    }
}

/// The buffer after a guest write of `data` to `port`: COM1 bytes are
/// appended, a newline empties the buffer (its line is flushed), and writes
/// to other ports change nothing.
pub open spec fn uart_step(buffer: Seq<u8>, port: u16, data: u8) -> Seq<u8> {
    if port != COM1_PORT {
        buffer
    } else if data == 10 {
        Seq::empty()
    } else {
        buffer.push(data)
    }
}

/// The buffer after the guest writes `writes` (port, byte) in order.
pub open spec fn uart_run(buffer: Seq<u8>, writes: Seq<(u16, u8)>) -> Seq<u8>
    decreases writes.len(),
{
    if writes.len() == 0 {
        buffer
    } else {
        uart_step(uart_run(buffer, writes.drop_last()), writes.last().0, writes.last().1)
    }
}

/// The bytes of `writes` that go to COM1, in order.
pub open spec fn com1_bytes(writes: Seq<(u16, u8)>) -> Seq<u8>
    decreases writes.len(),
{
    if writes.len() == 0 {
        Seq::empty()
    } else if writes.last().0 == COM1_PORT {
        com1_bytes(writes.drop_last()).push(writes.last().1)
    } else {
        com1_bytes(writes.drop_last())
    }
}

/// The bytes of `s` after its last newline (all of `s` when it has none).
pub open spec fn after_last_newline(s: Seq<u8>) -> Seq<u8>
    decreases s.len(),
{
    if s.len() == 0 {
        Seq::empty()
    } else if s.last() == 10 {
        Seq::empty()
    } else {
        after_last_newline(s.drop_last()).push(s.last())
    }
}

/// The characters of an optional host string.
pub open spec fn text_of(text: Option<String>) -> Option<Seq<char>> {
    match text {
        Some(s) => Some(s@),
        None => None,
    }
}

/// Wraps `std::str::from_utf8`: the bytes decode exactly when they are valid
/// UTF-8, and then the string holds the characters they encode.
#[verifier::external_body]
fn utf8_to_string(bytes: &[u8]) -> (text: Option<String>)
    ensures
        text_of(text) == (if valid_utf8(bytes@) { Some(decode_utf8(bytes@)) } else { None }),
{
    match std::str::from_utf8(bytes) {
        Ok(s) => Some(String::from(s)),
        Err(_) => None,
    }
}

/// A minimal 16550A UART (COM1) that buffers guest output line by line.
pub struct Uart {
    buffer: Vec<u8>,
}

impl View for Uart {
    type V = Seq<u8>;

    closed spec fn view(&self) -> Seq<u8> {
        self.buffer@
    }
}

impl Uart {
    /// A UART with an empty output buffer.
    pub fn new() -> (uart: Self)
        ensures
            uart@ == Seq::<u8>::empty(),
    {
        Uart { buffer: Vec::new() }
    }

    /// Handles a guest write of `data` to I/O port `port`. Bytes sent to COM1
    /// are buffered; a newline flushes the buffered line, whose text (if any)
    /// is returned for the host console.
    pub fn write(&mut self, port: u16, data: u8) -> (flushed: Option<String>)
        ensures
            final(self)@ == uart_step(old(self)@, port, data),
            port != COM1_PORT ==> final(self)@ == old(self)@ && flushed is None,
            port == COM1_PORT && data != 10 ==> final(self)@ == old(self)@.push(data)
                && flushed is None,
            port == COM1_PORT && data == 10 ==> final(self)@ == Seq::<u8>::empty()
                && text_of(flushed) == flush_text(old(self)@.push(data)),
    {
        if port == COM1_PORT {
            self.buffer.push(data);
            if data == 10u8 {
                return self.flush();
            }
        }
        None
    }

    /// The bytes currently buffered.
    pub fn get_buffer(&self) -> (bytes: &[u8])
        ensures
            bytes@ == self@,
    {
        self.buffer.as_slice()
    }

    /// Empties the buffer and returns its text for the host console: `None`
    /// when the buffer was empty or did not hold valid UTF-8.
    pub fn flush(&mut self) -> (text: Option<String>)
        ensures
            final(self)@ == Seq::<u8>::empty(),
            text_of(text) == flush_text(old(self)@),
    {
        if self.buffer.len() == 0 {
            return None;
        }
        let text = utf8_to_string(self.buffer.as_slice());
        self.buffer.clear();
        text
    }
}

impl Default for Uart {
    fn default() -> (uart: Self)
        ensures
            uart@ == Seq::<u8>::empty(),
    {
        Uart::new()
    }
}

/// Starting from an empty buffer, the UART holds exactly the bytes written
/// to COM1 since the last newline written to COM1: each completed line has
/// been flushed, and writes to other ports leave no trace.
pub proof fn buffer_holds_current_line(writes: Seq<(u16, u8)>)
    ensures
        uart_run(Seq::empty(), writes) == after_last_newline(com1_bytes(writes)),
    decreases writes.len(),
{
    if writes.len() > 0 {
        buffer_holds_current_line(writes.drop_last());
        let c = com1_bytes(writes.drop_last());
        if writes.last().0 == COM1_PORT {
            let s = c.push(writes.last().1);
            assert(s.drop_last() =~= c);
            assert(s.last() == writes.last().1);
        }
    }
}

} // verus!
