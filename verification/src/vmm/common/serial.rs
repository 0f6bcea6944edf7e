//! The 8250 serial port through which the guest's console reaches the host.

use vstd::prelude::*;

verus! {

pub const SERIAL_PORT_BASE: u16 = 0x3f8;

pub const SERIAL_PORT_END: u16 = 0x3ff;

/// Transmitter holding register.
pub const REG_THR: u16 = 0;

/// Line status register.
pub const REG_LSR: u16 = 5;

/// Holding register empty.
pub const LSR_THRE: u8 = 0x20;

/// Transmitter empty.
pub const LSR_TEMT: u8 = 0x40;

/// `port` belongs to the serial port.
pub open spec fn is_serial_port(port: u16) -> bool {
    SERIAL_PORT_BASE <= port <= SERIAL_PORT_END
}

/// What the register at `port` reads as: the line status says that the transmitter is
/// always ready, every other register is zero.
pub open spec fn register_value(port: u16) -> u8 {
    if port - SERIAL_PORT_BASE == REG_LSR {
        0x60
    } else {
        0
    }
}

/// The byte that writing `data` to `port` puts on the console.
pub open spec fn console_byte(port: u16, data: Seq<u8>) -> Option<u8> {
    if port - SERIAL_PORT_BASE == REG_THR && data.len() > 0 {
        Some(data[0])
    } else {
        None
    }
}

/// `data` after it was read from `port`.
pub open spec fn read_reply(port: u16, data: Seq<u8>) -> Seq<u8> {
    if data.len() > 0 {
        data.update(0, register_value(port))
    } else {
        data
    }
}

/// A serial port whose transmitter is always ready and which never receives.
#[derive(Debug, Clone, Copy, PartialEq, Eq, Structural)]
pub struct Serial;

impl Serial {
    pub fn new() -> (s: Self)
        ensures
            s == Serial,
    {
        Serial
    }

    /// Whether `port` belongs to the serial port.
    pub fn handles(port: u16) -> (r: bool)
        ensures
            r == is_serial_port(port),
    {
        SERIAL_PORT_BASE <= port && port <= SERIAL_PORT_END
    }

    /// The guest writes `data` to `port`: gives the byte that goes to the console.
    pub fn write(&self, port: u16, data: &[u8]) -> (r: Option<u8>)
        requires
            port >= SERIAL_PORT_BASE,
        ensures
            r == console_byte(port, data@),
    {
        let reg: u16 = port - SERIAL_PORT_BASE;
        if reg == REG_THR && data.len() > 0 {
            Some(data[0])
        } else {
            None
        }
    }

    /// The guest reads `data` from `port`.
    pub fn read(&self, port: u16, data: &mut [u8])
        requires
            old(data)@.len() > 0 ==> port >= SERIAL_PORT_BASE,
        ensures
            final(data)@ == read_reply(port, old(data)@),
    {
        if data.len() == 0 {
            return;
        }
        let reg: u16 = port - SERIAL_PORT_BASE;
        let value: u8 = if reg == REG_LSR {
            assert(LSR_THRE | LSR_TEMT == 0x60) by (bit_vector);
            LSR_THRE | LSR_TEMT
        } else {
            0
        };
        data[0] = value;
    }
}

impl Default for Serial {
    fn default() -> (s: Self)
        ensures
            s == Serial,
    {
        Serial::new()
    }
}

/// A guest that polls the line status before it sends always finds the transmitter
/// ready, and the byte that it then sends is the byte that the console shows.
pub proof fn law_console_is_always_ready(byte: u8, rest: Seq<u8>, data: Seq<u8>)
    requires
        data.len() > 0,
    ensures
        read_reply((SERIAL_PORT_BASE + REG_LSR) as u16, data)[0] & LSR_THRE == LSR_THRE,
        read_reply((SERIAL_PORT_BASE + REG_LSR) as u16, data)[0] & LSR_TEMT == LSR_TEMT,
        console_byte(SERIAL_PORT_BASE, seq![byte] + rest) == Some(byte),
{
    assert(0x60u8 & 0x20 == 0x20) by (bit_vector);
    assert(0x60u8 & 0x40 == 0x40) by (bit_vector);
}

/// Only the transmitter register reaches the console.
pub proof fn law_other_registers_are_silent(port: u16, data: Seq<u8>)
    requires
        is_serial_port(port),
        port != SERIAL_PORT_BASE,
    ensures
        console_byte(port, data) is None,
{
}

/// The serial port answers at eight ports. A read of it gives one byte: `0x60` from the line
/// status register, zero from the others; what else was to be read stays as it was.
pub proof fn law_serial_reads(port: u16, data: Seq<u8>)
    ensures
        is_serial_port(port) <==> 0x3f8 <= port < 0x400,
        read_reply(port, data).len() == data.len(),
        data.len() > 0 ==> read_reply(port, data)[0] == if port == 0x3fd {
            0x60u8
        } else {
            0u8
        },
        forall|i: int| 0 < i < data.len() ==> (#[trigger] read_reply(port, data)[i]) == data[i],
{
}

/// The console shows the first byte that is written to the first port, and nothing else.
pub proof fn law_serial_writes(port: u16, data: Seq<u8>)
    ensures
        port == 0x3f8 && data.len() > 0 ==> console_byte(port, data) == Some(data[0]),
        port != 0x3f8 || data.len() == 0 ==> console_byte(port, data) is None,
{
}

} // verus!
