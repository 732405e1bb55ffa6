//! The pair of cascaded 8259 programmable interrupt controllers.
//!
//! The controllers are driven through I/O ports; here each operation
//! computes the port writes it makes, which the caller then performs in order.

use vstd::prelude::*;

verus! {

/// Initialisation command word 1: start initialisation, ICW4 follows.
pub const INIT: u8 = 0x11;

/// The master's IRQ line to which the slave is cascaded.
pub const CASCADE: u8 = 0x02;

/// Initialisation command word 4: 8086 mode.
pub const MODE_8086: u8 = 0x01;

/// End-of-interrupt command.
pub const EOI: u8 = 0x20;

/// Port written to give the controller time between writes.
pub const WAIT_PORT: u16 = 0x80;

/// Vector base of the master's IRQs after remapping.
pub const MASTER_OFFSET: u8 = 0x20;

/// Vector base of the slave's IRQs after remapping.
pub const SLAVE_OFFSET: u8 = 0x28;

/// One byte written to one I/O port.
#[derive(Clone, Copy, PartialEq, Eq, Structural, Debug)]
pub struct PortWrite {
    pub port: u16,
    pub value: u8,
}

/// The port writes of one write followed by a pause: a zero to the wait port
/// first, then `value` to `port`.
pub fn port_write_wait(port: u16, value: u8) -> (r: Vec<PortWrite>)
    ensures
        r@ == seq![PortWrite { port: WAIT_PORT, value: 0 }, PortWrite { port, value }],
{
    let mut writes: Vec<PortWrite> = Vec::new();
    writes.push(PortWrite { port: WAIT_PORT, value: 0 });
    writes.push(PortWrite { port, value });
    writes
}

/// The bit of IRQ `irq` in the mask register of its controller.
pub open spec fn irq_bit(irq: u8) -> u8 {
    (1u8 << (irq % 8))
}

/// The master and slave controllers, each with a command and a data port.
#[derive(Clone, Copy)]
pub struct Pic {
    pub master_command: u16,
    pub master_data: u16,
    pub slave_command: u16,
    pub slave_data: u16,
}

impl Pic {
    /// The controllers at their standard ports.
    pub fn new() -> (r: Self)
        ensures
            r.master_command == 0x20,
            r.master_data == 0x21,
            r.slave_command == 0xA0,
            r.slave_data == 0xA1,
    {
        Pic { master_command: 0x20, master_data: 0x21, slave_command: 0xA0, slave_data: 0xA1 }
    }

    /// The initialisation writes, each paired with the one that pauses:
    /// ICW1 to both, vector bases 0x20 and 0x28, the cascade wiring, 8086
    /// mode, and finally every IRQ masked on both controllers.
    pub open spec fn init_writes(self) -> Seq<(u16, u8)> {
        seq![
            (self.master_command, INIT),
            (self.slave_command, INIT),
            (self.master_data, MASTER_OFFSET),
            (self.slave_data, SLAVE_OFFSET),
            (self.master_data, 4u8),
            (self.slave_data, CASCADE),
            (self.master_data, MODE_8086),
            (self.slave_data, MODE_8086),
            (self.master_data, 0xFFu8),
            (self.slave_data, 0xFFu8),
        ]
    }

    /// The port writes that initialise both controllers: each write of
    /// `init_writes` preceded by a pause.
    pub fn init(&self) -> (r: Vec<PortWrite>)
        ensures
            r@.len() == 2 * self.init_writes().len(),
            forall|k: int|
                0 <= k < self.init_writes().len() ==> {
                    &&& #[trigger] r@[2 * k] == PortWrite { port: WAIT_PORT, value: 0 }
                    &&& r@[2 * k + 1] == PortWrite {
                        port: self.init_writes()[k].0,
                        value: self.init_writes()[k].1,
                    }
                },
    {
        let steps: [(u16, u8); 10] = [
            (self.master_command, INIT),
            (self.slave_command, INIT),
            (self.master_data, MASTER_OFFSET),
            (self.slave_data, SLAVE_OFFSET),
            (self.master_data, 1 << CASCADE),
            (self.slave_data, CASCADE),
            (self.master_data, MODE_8086),
            (self.slave_data, MODE_8086),
            (self.master_data, 0xFF),
            (self.slave_data, 0xFF),
        ];
        assert(steps@ == self.init_writes()) by {
            assert((1u8 << CASCADE) == 4u8) by (bit_vector);
        }
        let mut writes: Vec<PortWrite> = Vec::new();
        let mut k: usize = 0;
        while k < 10
            invariant
                k <= 10,
                steps@ == self.init_writes(),
                writes@.len() == 2 * k,
                forall|j: int|
                    0 <= j < k ==> {
                        &&& #[trigger] writes@[2 * j] == PortWrite { port: WAIT_PORT, value: 0 }
                        &&& writes@[2 * j + 1] == PortWrite {
                            port: self.init_writes()[j].0,
                            value: self.init_writes()[j].1,
                        }
                    },
            decreases 10 - k,
        {
            let (port, value) = steps[k];
            let pair = port_write_wait(port, value);
            writes.push(pair[0]);
            writes.push(pair[1]);
            k = k + 1;
        }
        writes
    }

    /// The data port that holds the mask bit of IRQ `irq`: the master's for
    /// IRQs 0 to 7, the slave's for the others.
    pub fn irq_data_port(&self, irq: u8) -> (r: u16)
        ensures
            r == (if irq < 8 { self.master_data } else { self.slave_data }),
    {
        if irq < 8 {
            self.master_data
        } else {
            self.slave_data
        }
    }

    /// Masks IRQ `irq`, given `mask`, the value read from its data port: the
    /// write that sets the IRQ's bit and keeps the others.
    pub fn mask_irq(&self, irq: u8, mask: u8) -> (r: PortWrite)
        requires
            irq < 16,
        ensures
            r.port == (if irq < 8 { self.master_data } else { self.slave_data }),
            r.value == mask | irq_bit(irq),
    {
        if irq < 8 {
            PortWrite { port: self.master_data, value: mask | (1u8 << irq) }
        } else {
            let irq = irq - 8;
            PortWrite { port: self.slave_data, value: mask | (1u8 << irq) }
        }
    }

    /// Unmasks IRQ `irq`, given `mask`, the value read from its data port: the
    /// write that clears the IRQ's bit and keeps the others.
    pub fn unmask_irq(&self, irq: u8, mask: u8) -> (r: PortWrite)
        requires
            irq < 16,
        ensures
            r.port == (if irq < 8 { self.master_data } else { self.slave_data }),
            r.value == mask & !irq_bit(irq),
    {
        if irq < 8 {
            PortWrite { port: self.master_data, value: mask & !(1u8 << irq) }
        } else {
            let irq = irq - 8;
            PortWrite { port: self.slave_data, value: mask & !(1u8 << irq) }
        }
    }

    /// Signals end of interrupt for `irq`: to the slave and then the master
    /// when `irq` is 8 or more, to the master alone otherwise.
    pub fn eoi(&self, irq: u8) -> (r: Vec<PortWrite>)
        ensures
            irq >= 8 ==> r@ == seq![
                PortWrite { port: self.slave_command, value: EOI },
                PortWrite { port: self.master_command, value: EOI },
            ],
            irq < 8 ==> r@ == seq![PortWrite { port: self.master_command, value: EOI }],
    {
        let mut writes: Vec<PortWrite> = Vec::new();
        if irq >= 8 {
            writes.push(PortWrite { port: self.slave_command, value: EOI });
        }
        writes.push(PortWrite { port: self.master_command, value: EOI });
        writes
    }
}

/// Masking sets exactly the IRQ's bit, unmasking clears exactly that bit,
/// each undoes the other on that bit, and repeating either changes nothing.
pub proof fn lemma_mask_unmask(irq: u8, mask: u8)
    requires
        irq < 16,
    ensures
        (mask | irq_bit(irq)) & irq_bit(irq) == irq_bit(irq),
        (mask & !irq_bit(irq)) & irq_bit(irq) == 0,
        (mask | irq_bit(irq)) & !irq_bit(irq) == mask & !irq_bit(irq),
        (mask & !irq_bit(irq)) | irq_bit(irq) == mask | irq_bit(irq),
        (mask | irq_bit(irq)) | irq_bit(irq) == mask | irq_bit(irq),
        (mask & !irq_bit(irq)) & !irq_bit(irq) == mask & !irq_bit(irq),
        mask & irq_bit(irq) != 0 ==> mask | irq_bit(irq) == mask,
        mask & irq_bit(irq) == 0 ==> mask & !irq_bit(irq) == mask,
{
    let l: u8 = irq % 8;
    let b: u8 = 1u8 << l;
    assert(irq_bit(irq) == b);
    assert(
        (mask | b) & b == b
        && (mask & !b) & b == 0
        && (mask | b) & !b == mask & !b
        && (mask & !b) | b == mask | b
        && (mask | b) | b == mask | b
        && (mask & !b) & !b == mask & !b
        && (mask & b != 0 ==> mask | b == mask)
        && (mask & b == 0 ==> mask & !b == mask)
    ) by (bit_vector)
        requires
            l < 8,
            b == 1u8 << l,
    ;
}

/// IRQ `n` is bit `n` of the master's mask for `n` below 8, and bit `n - 8`
/// of the slave's mask for the others: IRQ 0 and IRQ 8 are bit 0, and each
/// next line is the next bit.
pub proof fn lemma_irq_bits(irq: u8)
    requires
        irq < 16,
    ensures
        irq_bit(0) == 1,
        irq_bit(8) == 1,
        irq % 8 != 7 ==> irq_bit((irq + 1) as u8) == 2 * irq_bit(irq),
        irq_bit(7) == 0x80,
        irq_bit(15) == 0x80,
{
    let l: u8 = irq % 8;
    assert(((irq + 1) as u8) % 8 == l + 1 || l == 7);
    assert(l != 7 ==> (1u8 << ((l + 1) as u8)) == 2 * (1u8 << l)) by (bit_vector)
        requires
            l < 8,
    ;
    assert((1u8 << 0u8) == 1u8 && (1u8 << 7u8) == 0x80u8) by (bit_vector);
}

} // verus!
