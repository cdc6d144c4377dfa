//! The serial line: a log channel over a 16550 UART, independent of the
//! display, programmed once before the first byte goes out.
use vstd::prelude::*;
use uart_16550::SerialPort;
use spin::Mutex;
use crate::sync::guarded;

verus! {

/// The I/O base address of the first serial port.
pub const SERIAL_BASE: u16 = 0x3f8;

/// `uart_16550::SerialPort`: the registers of a 16550 UART at an I/O base.
#[verifier::external_type_specification]
#[verifier::external_body]
pub struct ExSerialPort(SerialPort);

/// What `uart_16550::SerialPort::send` hands the transmitter for one byte: backspace
/// and delete become backspace, space, backspace; any other byte goes as it is.
pub open spec fn line_bytes(b: u8) -> Seq<u8> {
    if b == 0x08 || b == 0x7f {
        seq![0x08u8, 0x20u8, 0x08u8]
    } else {
        seq![b]
    }
}

/// What `uart_16550::SerialPort::send` hands the transmitter for the bytes, one after
/// the other.
pub open spec fn line_text(bytes: Seq<u8>) -> Seq<u8>
    decreases bytes.len(),
{
    if bytes.len() == 0 {
        Seq::empty()
    } else {
        line_text(bytes.drop_last()) + line_bytes(bytes.last())
    }
}

/// The serial log channel: the port, whether this channel has programmed
/// it, and as ghost state how often it did, whether the port was programmed
/// through it, and what the channel handed the port's transmitter. The
/// ghost state changes only by the two calls into the port below.
pub struct SerialChannel {
    port: SerialPort,
    initialized: bool,
    init_calls: Ghost<nat>,
    programmed: Ghost<bool>,
    sent: Ghost<Seq<u8>>,
}

impl SerialChannel {
    /// The channel programmed its port once if it says so, never otherwise,
    /// and a port it programmed is programmed.
    pub closed spec fn wf(&self) -> bool {
        &&& self.init_calls@ == (if self.initialized { 1nat } else { 0nat })
        &&& self.initialized ==> self.programmed@
    }

    /// Whether the channel has programmed its port.
    pub closed spec fn spec_initialized(&self) -> bool {
        self.initialized
    }

    /// How many times the channel has programmed its port.
    pub closed spec fn init_count(&self) -> nat {
        self.init_calls@
    }

    /// Whether the port has been programmed through this channel.
    pub closed spec fn programmed(&self) -> bool {
        self.programmed@
    }

    /// The bytes this channel has handed the port's transmitter, in order.
    pub closed spec fn sent_bytes(&self) -> Seq<u8> {
        self.sent@
    }

    /// Relies on `uart_16550::SerialPort::init`: writes the line-control,
    /// divisor, FIFO, modem and interrupt registers, which programs the
    /// port for 8 data bits, no parity, one stop bit; the data register is
    /// written only as the divisor latch, so nothing is handed to the
    /// transmitter. It does not panic.
    #[verifier::external_body]
    fn program_port(&mut self)
        ensures
            final(self).programmed@,
            final(self).sent@ == old(self).sent@,
            final(self).port == old(self).port,
            final(self).initialized == old(self).initialized,
            final(self).init_calls == old(self).init_calls,
    {
        self.port.init()
    }

    /// Relies on `uart_16550::SerialPort::send`: waits until the transmitter
    /// is empty and hands it the byte, except that 0x08 and 0x7f are handed
    /// as 0x08, 0x20, 0x08. It touches no other register and does not panic.
    #[verifier::external_body]
    fn send_byte(&mut self, data: u8)
        ensures
            final(self).sent@ == old(self).sent@ + line_bytes(data),
            final(self).programmed == old(self).programmed,
            final(self).port == old(self).port,
            final(self).initialized == old(self).initialized,
            final(self).init_calls == old(self).init_calls,
    {
        self.port.send(data)
    }

    /// A well-formed channel programmed its port at most once, and its
    /// port is programmed once it did.
    pub proof fn lemma_programmed_once(&self)
        requires
            self.wf(),
        ensures
            self.init_count() == (if self.spec_initialized() { 1nat } else { 0nat }),
            self.spec_initialized() ==> self.programmed(),
    {
    }

    /// A channel over `port`, which it has not programmed yet and has sent
    /// nothing on.
    pub fn new(port: SerialPort) -> (r: SerialChannel)
        ensures
            r.wf(),
            !r.spec_initialized(),
            !r.programmed(),
            r.init_count() == 0,
            r.sent_bytes() == Seq::<u8>::empty(),
    {
        SerialChannel {
            port,
            initialized: false,
            init_calls: Ghost(0),
            programmed: Ghost(false),
            sent: Ghost(Seq::empty()),
        }
    }

    /// Whether the channel has programmed its port.
    pub fn is_initialized(&self) -> (r: bool)
        ensures
            r == self.spec_initialized(),
    {
        self.initialized
    }

    /// Programs the port unless the channel did that already.
    pub fn init(&mut self)
        ensures
            final(self).spec_initialized(),
            final(self).sent_bytes() == old(self).sent_bytes(),
            !old(self).spec_initialized() ==> final(self).programmed(),
            old(self).spec_initialized() ==> final(self).programmed() == old(self).programmed()
                && final(self).init_count() == old(self).init_count(),
            old(self).wf() ==> final(self).wf() && final(self).init_count() == 1
                && final(self).programmed(),
    {
        if !self.initialized {
            self.program_port();
            self.initialized = true;
            self.init_calls = Ghost(self.init_calls@ + 1);
        }
    }

    /// Sends `bytes` in order, blocking on each, after programming the port
    /// if the channel did not do that yet.
    pub fn write(&mut self, bytes: &[u8])
        ensures
            final(self).spec_initialized(),
            final(self).sent_bytes() == old(self).sent_bytes() + line_text(bytes@),
            !old(self).spec_initialized() ==> final(self).programmed(),
            old(self).spec_initialized() ==> final(self).programmed() == old(self).programmed(),
            old(self).wf() ==> final(self).wf() && final(self).init_count() == 1
                && final(self).programmed(),
    {
        self.init();
        let ghost was_wf = old(self).wf();
        let ghost programmed = self.programmed();
        let mut i: usize = 0;
        while i < bytes.len()
            invariant
                i <= bytes@.len(),
                self.initialized,
                self.programmed() == programmed,
                was_wf ==> self.wf() && self.init_calls@ == 1,
                self.sent_bytes() == old(self).sent_bytes() + line_text(bytes@.take(i as int)),
            decreases bytes@.len() - i,
        {
            self.send_byte(bytes[i]);
            proof {
                let t = bytes@.take(i + 1);
                assert(t.drop_last() =~= bytes@.take(i as int));
                assert(t.last() == bytes@[i as int]);
                assert(old(self).sent_bytes() + line_text(t) =~= old(self).sent_bytes() + line_text(
                    bytes@.take(i as int),
                ) + line_bytes(bytes@[i as int]));
            }
            i += 1;
        }
        assert(bytes@.take(i as int) =~= bytes@);
    }
}

/// Sends `s` on the channel behind `lock`, holding the lock for the whole
/// write so that lines from different callers do not interleave.
pub fn _print(lock: &Mutex<SerialChannel>, s: &str) {
    let mut guard = lock.lock();
    let channel = guarded(&mut guard);
    channel.write(s.as_bytes());
}

} // verus!
