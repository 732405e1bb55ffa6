use kernel::display::clear;
use kernel::pic8259::{Pic, PortWrite, EOI};
use kernel::interrupts::{handler_for_vector, Handler, InterruptIndex, Reaction};

#[test]
fn interrupt_index_vectors() {
    assert_eq!(InterruptIndex::Timer.as_u8(), 0x20);
    assert_eq!(InterruptIndex::Keyboard.as_u8(), 0x21);
    assert_eq!(InterruptIndex::Timer.as_usize(), 32);
    assert_eq!(InterruptIndex::Keyboard.as_usize(), 33);
    assert_eq!(InterruptIndex::Timer.irq(), 0);
    assert_eq!(InterruptIndex::Keyboard.irq(), 1);
}

#[test]
fn irq_acknowledgement_signals_master_only() {
    let pic = Pic::new();
    for handler in [Handler::Timer, Handler::Keyboard] {
        let line = match handler.reaction() {
            Reaction::EndOfInterrupt(line) | Reaction::KeyboardThenEndOfInterrupt(line) => line,
            other => panic!("unexpected {other:?}"),
        };
        assert_eq!(pic.eoi(line), vec![PortWrite { port: 0x20, value: EOI }]);
    }
}

#[test]
fn vector_table() {
    assert_eq!(handler_for_vector(0), Some(Handler::DivideError));
    assert_eq!(handler_for_vector(3), Some(Handler::Breakpoint));
    assert_eq!(handler_for_vector(8), Some(Handler::DoubleFault));
    assert_eq!(handler_for_vector(9), None);
    assert_eq!(handler_for_vector(14), Some(Handler::PageFault));
    assert_eq!(handler_for_vector(15), None);
    assert_eq!(handler_for_vector(20), Some(Handler::Virtualization));
    assert_eq!(handler_for_vector(21), None);
    assert_eq!(handler_for_vector(0x20), Some(Handler::Timer));
    assert_eq!(handler_for_vector(0x21), Some(Handler::Keyboard));
    assert_eq!(handler_for_vector(0x27), Some(Handler::SpuriousIrq7));
    assert_eq!(handler_for_vector(0x22), None);
    assert_eq!(handler_for_vector(0xFF), None);
}

#[test]
fn handler_reactions() {
    assert_eq!(Handler::Breakpoint.reaction(), Reaction::Report);
    assert_eq!(Handler::PageFault.reaction(), Reaction::Halt);
    assert_eq!(Handler::DoubleFault.reaction(), Reaction::Halt);
    assert_eq!(Handler::Timer.reaction(), Reaction::EndOfInterrupt(0));
    assert_eq!(Handler::Keyboard.reaction(), Reaction::KeyboardThenEndOfInterrupt(1));
    assert_eq!(Handler::SpuriousIrq7.reaction(), Reaction::Ignore);
}

#[test]
fn every_installed_vector_maps_back() {
    let mut count = 0;
    for v in 0u8..=255 {
        if handler_for_vector(v).is_some() {
            count += 1;
        }
    }
    assert_eq!(count, 22);
}

#[test]
fn clear_zeroes_framebuffer() {
    let mut fb = vec![0xFFu8; 37];
    clear(&mut fb);
    assert_eq!(fb, vec![0u8; 37]);
    let mut empty: Vec<u8> = Vec::new();
    clear(&mut empty);
    assert!(empty.is_empty());
}
