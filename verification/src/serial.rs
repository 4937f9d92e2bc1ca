//! Serial ports: which registers a port has, what is written to them to set
//! the port up, and what the line status says.

use vstd::prelude::*;
use vstd::string::StringSliceAdditionalSpecFns;

verus! {

/// The first register of the first serial port.
pub const COM1_PORT: u16 = 0x3F8;

/// The first register of the second serial port.
pub const COM2_PORT: u16 = 0x2F8;

/// The first register of the third serial port.
pub const COM3_PORT: u16 = 0x3E8;

/// The first register of the fourth serial port.
pub const COM4_PORT: u16 = 0x2E8;

/// The bit of the line status that says that a byte can be sent.
pub const TRANSMIT_EMPTY: u8 = 0x20;

/// The bit of the line status that says that a byte has arrived.
pub const DATA_READY: u8 = 0x01;

/// One write of a byte to a register.
#[derive(Clone, Copy, Debug, PartialEq, Eq, Structural)]
pub struct PortWrite {
    /// The byte.
    pub value: u8,
    /// The register.
    pub port: u16,
}

/// A serial port.
#[derive(Clone, Copy, Debug, PartialEq, Eq, Structural)]
pub struct SerialWriter {
    /// The first register of the port.
    pub port: u16,
    /// The interrupt line of the port.
    pub irq: u8,
}

impl SerialWriter {
    /// Whether the six registers of the port have addresses of 16 bits.
    pub open spec fn wf(&self) -> bool {
        self.port + 5 <= u16::MAX
    }

    /// The register for data.
    pub fn data(&self) -> (port: u16)
        ensures
            port == self.port,
    {
        self.port
    }

    /// The register that enables interrupts.
    pub fn ier(&self) -> (port: u16)
        requires
            self.wf(),
        ensures
            port == self.port + 1,
    {
        self.port + 1
    }

    /// The register that controls the buffers.
    pub fn fifo(&self) -> (port: u16)
        requires
            self.wf(),
        ensures
            port == self.port + 2,
    {
        self.port + 2
    }

    /// The register that controls the line.
    pub fn line(&self) -> (port: u16)
        requires
            self.wf(),
        ensures
            port == self.port + 3,
    {
        self.port + 3
    }

    /// The register that controls the modem.
    pub fn modem(&self) -> (port: u16)
        requires
            self.wf(),
        ensures
            port == self.port + 4,
    {
        self.port + 4
    }

    /// The register that holds the line status.
    pub fn line_status(&self) -> (port: u16)
        requires
            self.wf(),
        ensures
            port == self.port + 5,
    {
        self.port + 5
    }

    /// The writes that set the port up, in their order: interrupts off, the
    /// divisor 3 for the speed, eight bits without parity and one stop bit,
    /// the buffers on and cleared, and the modem lines on.
    pub fn init(&self) -> (writes: Vec<PortWrite>)
        requires
            self.wf(),
        ensures
            writes@ == seq![
                PortWrite { value: 0x00, port: self.port },
                PortWrite { value: 0x80, port: (self.port + 3) as u16 },
                PortWrite { value: 0x03, port: self.port },
                PortWrite { value: 0x00, port: (self.port + 1) as u16 },
                PortWrite { value: 0x03, port: (self.port + 3) as u16 },
                PortWrite { value: 0xc7, port: (self.port + 2) as u16 },
                PortWrite { value: 0x0b, port: (self.port + 4) as u16 },
            ],
    {
        let mut writes = Vec::new();
        writes.push(PortWrite { value: 0x00, port: self.data() });
        writes.push(PortWrite { value: 0x80, port: self.line() });
        writes.push(PortWrite { value: 0x03, port: self.data() });
        writes.push(PortWrite { value: 0x00, port: self.ier() });
        writes.push(PortWrite { value: 0x03, port: self.line() });
        writes.push(PortWrite { value: 0xc7, port: self.fifo() });
        writes.push(PortWrite { value: 0x0b, port: self.modem() });
        writes
    }

    /// The writes that set the speed of the port to the divisor `divisor`:
    /// the divisor latch is opened, then the second byte of the divisor and
    /// then the first go to the data register.
    pub fn set_baud_rate(&self, divisor: u32) -> (writes: Vec<PortWrite>)
        requires
            self.wf(),
        ensures
            writes@ == seq![
                PortWrite { value: 0x80, port: (self.port + 3) as u16 },
                PortWrite { value: ((divisor / 256) % 256) as u8, port: self.port },
                PortWrite { value: (divisor % 256) as u8, port: self.port },
            ],
    {
        let high = (divisor >> 8) & 0x00FF;
        let low = divisor & 0x00FF;
        assert(high == (divisor / 256) % 256 && low == divisor % 256 && high < 256 && low < 256)
            by (bit_vector)
            requires
                high == (divisor >> 8) & 0x00FF,
                low == divisor & 0x00FF,
        ;
        let mut writes = Vec::new();
        writes.push(PortWrite { value: 0x80, port: self.line() });
        writes.push(PortWrite { value: high as u8, port: self.data() });
        writes.push(PortWrite { value: low as u8, port: self.data() });
        writes
    }

    /// The write that sets the line to eight bits without parity and one
    /// stop bit.
    pub fn set_line(&self) -> (write: PortWrite)
        requires
            self.wf(),
        ensures
            write == (PortWrite { value: 0x03, port: (self.port + 3) as u16 }),
    {
        PortWrite { value: 0x03, port: self.line() }
    }

    /// The write that turns the buffers on and clears them.
    pub fn enable_buffer(&self) -> (write: PortWrite)
        requires
            self.wf(),
        ensures
            write == (PortWrite { value: 0xc7, port: (self.port + 2) as u16 }),
    {
        PortWrite { value: 0xc7, port: self.fifo() }
    }

    /// The write that sends `byte`, once the line status says that a byte
    /// can be sent.
    pub fn write_byte(&self, byte: u8) -> (write: PortWrite)
        ensures
            write == (PortWrite { value: byte, port: self.port }),
    {
        PortWrite { value: byte, port: self.data() }
    }

    /// The writes that send the bytes of `string`, each once the line status
    /// says that a byte can be sent.
    pub fn write_str(&self, string: &str) -> (writes: Vec<PortWrite>)
        ensures
            writes@.len() == string.spec_bytes().len(),
            forall|index: int|
                0 <= index < writes@.len() ==> #[trigger] writes@[index] == (PortWrite {
                    value: string.spec_bytes()[index],
                    port: self.port,
                }),
    {
        let bytes = string.as_bytes();
        let mut writes = Vec::new();
        let mut index: usize = 0;
        while index < bytes.len()
            invariant
                0 <= index <= bytes@.len(),
                bytes@ == string.spec_bytes(),
                writes@.len() == index,
                forall|other: int|
                    0 <= other < index ==> #[trigger] writes@[other] == (PortWrite {
                        value: bytes@[other],
                        port: self.port,
                    }),
            decreases bytes@.len() - index,
        {
            writes.push(self.write_byte(bytes[index]));
            index += 1;
        }
        writes
    }

    /// Whether the line status `status` says that a byte can be sent.
    pub fn buffer_is_empty(&self, status: u8) -> (empty: bool)
        ensures
            empty == (status & TRANSMIT_EMPTY != 0),
    {
        let bit = status & 0x20;
        bit > 0
    }

    /// Whether the line status `status` says that a byte has arrived.
    pub fn buffer_contains_data(&self, status: u8) -> (ready: bool)
        ensures
            ready == (status & DATA_READY != 0),
    {
        let bit = status & 1;
        bit > 0
    }

    /// The character that the byte `byte`, read from the data register, stands
    /// for.
    pub fn read_char(&self, byte: u8) -> (character: char)
        ensures
            character as u32 == byte as u32,
    {
        byte as char
    }
}

} // verus!
