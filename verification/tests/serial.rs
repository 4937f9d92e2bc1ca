use rite::serial::{PortWrite, SerialWriter, COM1_PORT, COM2_PORT, COM3_PORT, COM4_PORT};

fn com1() -> SerialWriter {
    SerialWriter { port: COM1_PORT, irq: 4 }
}

#[test]
fn ports() {
    assert_eq!(COM1_PORT, 0x3F8);
    assert_eq!(COM2_PORT, 0x2F8);
    assert_eq!(COM3_PORT, 0x3E8);
    assert_eq!(COM4_PORT, 0x2E8);
    let port = com1();
    assert_eq!(port.data(), 0x3F8);
    assert_eq!(port.ier(), 0x3F9);
    assert_eq!(port.fifo(), 0x3FA);
    assert_eq!(port.line(), 0x3FB);
    assert_eq!(port.modem(), 0x3FC);
    assert_eq!(port.line_status(), 0x3FD);
}

#[test]
fn writes_that_set_a_port_up() {
    assert_eq!(
        com1().init(),
        vec![
            PortWrite { value: 0x00, port: 0x3F8 },
            PortWrite { value: 0x80, port: 0x3FB },
            PortWrite { value: 0x03, port: 0x3F8 },
            PortWrite { value: 0x00, port: 0x3F9 },
            PortWrite { value: 0x03, port: 0x3FB },
            PortWrite { value: 0xc7, port: 0x3FA },
            PortWrite { value: 0x0b, port: 0x3FC },
        ]
    );
    assert_eq!(com1().set_line(), PortWrite { value: 0x03, port: 0x3FB });
    assert_eq!(com1().enable_buffer(), PortWrite { value: 0xc7, port: 0x3FA });
}

#[test]
fn writes_that_set_the_speed() {
    assert_eq!(
        com1().set_baud_rate(0x0001_1234),
        vec![
            PortWrite { value: 0x80, port: 0x3FB },
            PortWrite { value: 0x12, port: 0x3F8 },
            PortWrite { value: 0x34, port: 0x3F8 },
        ]
    );
    assert_eq!(com1().set_baud_rate(3)[1], PortWrite { value: 0, port: 0x3F8 });
    assert_eq!(com1().set_baud_rate(3)[2], PortWrite { value: 3, port: 0x3F8 });
}

#[test]
fn line_status() {
    let port = com1();
    assert!(port.buffer_is_empty(0x20));
    assert!(port.buffer_is_empty(0x61));
    assert!(!port.buffer_is_empty(0x01));
    assert!(!port.buffer_is_empty(0xdf));
    assert!(port.buffer_contains_data(0x01));
    assert!(port.buffer_contains_data(0x21));
    assert!(!port.buffer_contains_data(0x20));
    assert!(!port.buffer_contains_data(0xfe));
}

#[test]
fn bytes_to_send_and_bytes_read() {
    let port = SerialWriter { port: COM2_PORT, irq: 3 };
    assert_eq!(port.write_byte(b'x'), PortWrite { value: b'x', port: 0x2F8 });
    assert_eq!(
        port.write_str("Hi!"),
        vec![
            PortWrite { value: b'H', port: 0x2F8 },
            PortWrite { value: b'i', port: 0x2F8 },
            PortWrite { value: b'!', port: 0x2F8 },
        ]
    );
    assert_eq!(port.write_str(""), Vec::new());
    assert_eq!(port.read_char(0x41), 'A');
    assert_eq!(port.read_char(0xe9), '\u{e9}');
    assert_eq!(port.read_char(0), '\0');
}
