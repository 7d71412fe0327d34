use bbc_micro_emu::acia6850::{Acia6850, SerialUla};

#[test]
fn master_reset_via_control_register() {
    let mut a = Acia6850::new();
    // Pre-load some state.
    a.write(1, 0xAA);
    a.write(0, 0x03); // master reset
    assert_eq!(a.tdr, 0xAA); // TDR not cleared by master reset
    let status = a.read(0);
    assert!(status & 0x02 != 0); // TDRE
    assert!(status & 0x01 == 0); // RDRF clear
}

#[test]
fn receive_then_read_clears_rdrf() {
    let mut a = Acia6850::new();
    a.write(0, 0x96); // 8N1, RX irq enable
    a.receive(0x5A);
    assert!(a.read(0) & 0x01 != 0);
    assert_eq!(a.read(1), 0x5A);
    assert!(a.read(0) & 0x01 == 0);
}

#[test]
fn double_receive_sets_overrun() {
    let mut a = Acia6850::new();
    a.write(0, 0x96);
    a.receive(0x11);
    a.receive(0x22);
    assert!(a.read(0) & 0x20 != 0);
}

#[test]
fn serial_ula_baud_decode() {
    let mut ula = SerialUla::new();
    ula.write(0b0000_0000); // RX 19200 TX 19200
    assert_eq!(ula.rx_baud(), 19200);
    assert_eq!(ula.tx_baud(), 19200);
    ula.write(0b0010_0101);
    // bits 5:3 = 100 -> 9600, bits 2:0 = 101 -> 300
    assert_eq!(ula.rx_baud(), 9600);
    assert_eq!(ula.tx_baud(), 300);
    assert!(!ula.motor_on());
    assert!(!ula.cassette_selected());
    ula.write(0xC0);
    assert!(ula.motor_on());
    assert!(ula.cassette_selected());
}

#[test]
fn transmit_byte_is_handed_over_once() {
    let mut a = Acia6850::new();
    assert_eq!(a.poll_tx(), None);
    a.write(1, 0x41);
    assert_eq!(a.poll_tx(), Some(0x41));
    assert_eq!(a.poll_tx(), None);
    a.write(1, 0x42);
    a.write(1, 0x43);
    assert_eq!(a.poll_tx(), Some(0x43));
    assert_eq!(a.poll_tx(), None);
    a.write(0, 0x03); // master reset leaves the data registers alone
    assert_eq!(a.poll_tx(), None);
}
