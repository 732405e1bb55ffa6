use kernel::pic8259::{port_write_wait, Pic, PortWrite, EOI, WAIT_PORT};

fn w(port: u16, value: u8) -> PortWrite {
    PortWrite { port, value }
}

#[test]
fn pic_ports() {
    let pic = Pic::new();
    assert_eq!(pic.master_command, 0x20);
    assert_eq!(pic.master_data, 0x21);
    assert_eq!(pic.slave_command, 0xA0);
    assert_eq!(pic.slave_data, 0xA1);
}

#[test]
fn port_write_wait_pauses_first() {
    assert_eq!(port_write_wait(0x21, 0x55), vec![w(WAIT_PORT, 0), w(0x21, 0x55)]);
}

#[test]
fn init_sequence() {
    let pic = Pic::new();
    let writes = pic.init();
    let expected_payload = [
        (0x20u16, 0x11u8),
        (0xA0, 0x11),
        (0x21, 0x20),
        (0xA1, 0x28),
        (0x21, 0x04),
        (0xA1, 0x02),
        (0x21, 0x01),
        (0xA1, 0x01),
        (0x21, 0xFF),
        (0xA1, 0xFF),
    ];
    assert_eq!(writes.len(), 20);
    for (k, (port, value)) in expected_payload.iter().enumerate() {
        assert_eq!(writes[2 * k], w(0x80, 0));
        assert_eq!(writes[2 * k + 1], w(*port, *value));
    }
}

#[test]
fn mask_and_unmask_master() {
    let pic = Pic::new();
    assert_eq!(pic.irq_data_port(1), 0x21);
    assert_eq!(pic.mask_irq(1, 0x00), w(0x21, 0x02));
    assert_eq!(pic.mask_irq(1, 0xF0), w(0x21, 0xF2));
    assert_eq!(pic.unmask_irq(1, 0xFF), w(0x21, 0xFD));
    assert_eq!(pic.unmask_irq(0, 0x01), w(0x21, 0x00));
}

#[test]
fn mask_and_unmask_slave() {
    let pic = Pic::new();
    assert_eq!(pic.irq_data_port(12), 0xA1);
    assert_eq!(pic.mask_irq(12, 0x00), w(0xA1, 0x10));
    assert_eq!(pic.unmask_irq(15, 0xFF), w(0xA1, 0x7F));
    assert_eq!(pic.mask_irq(8, 0x80), w(0xA1, 0x81));
}

#[test]
fn mask_then_unmask_restores_other_bits() {
    let pic = Pic::new();
    for irq in 0u8..16 {
        for mask in [0x00u8, 0x5A, 0xFF] {
            let masked = pic.mask_irq(irq, mask).value;
            let unmasked = pic.unmask_irq(irq, masked).value;
            let bit = 1u8 << (irq % 8);
            assert_eq!(masked & bit, bit);
            assert_eq!(unmasked, mask & !bit);
        }
    }
}

#[test]
fn eoi_master_only_below_8() {
    let pic = Pic::new();
    assert_eq!(pic.eoi(0), vec![w(0x20, EOI)]);
    assert_eq!(pic.eoi(7), vec![w(0x20, 0x20)]);
}

#[test]
fn eoi_slave_then_master_from_8() {
    let pic = Pic::new();
    assert_eq!(pic.eoi(8), vec![w(0xA0, EOI), w(0x20, EOI)]);
    assert_eq!(pic.eoi(15), vec![w(0xA0, EOI), w(0x20, EOI)]);
    assert_eq!(pic.eoi(1), vec![w(0x20, EOI)]);
}
