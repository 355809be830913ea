//! Interrupt-controller mask arithmetic. The two chained controllers each
//! carry an eight-bit mask, one bit per line, a set bit masking the line.
//! Which bits a request to enable or disable a line flips — including
//! keeping the cascade line open when a line of the second controller is
//! enabled — is decided here; reading and writing the mask registers is
//! the hardware side's part.

use vstd::prelude::*;

verus! {

/// First vector of the primary controller's lines.
pub const PIC_1_OFFSET: u8 = 0x20;

/// First vector of the secondary controller's lines.
pub const PIC_2_OFFSET: u8 = 0x28;

/// Highest interrupt line number.
pub const MAX_IRQ: u8 = 15;

/// The primary controller's line that cascades the secondary controller.
pub const CASCADE_IRQ: u8 = 2;

/// A mask byte with every line masked.
pub const ALL_IRQS_MASKED: u8 = 0xFF;

/// The two controllers' mask bytes.
#[derive(Clone, Copy, Debug, PartialEq, Eq, Structural)]
pub struct IrqMasks {
    pub master: u8,
    pub slave: u8,
}

impl IrqMasks {
    /// Whether line `irq` is enabled: its mask bit is clear.
    pub open spec fn irq_enabled(self, irq: u8) -> bool {
        if irq < 8 {
            self.master & (1u8 << irq) == 0
        } else {
            self.slave & (1u8 << (irq - 8) as u8) == 0
        }
    }
}

/// Flip one line's mask bit: clear it to enable, set it to disable. When a
/// line of the secondary controller is enabled, the cascade line opens
/// with it, else its interrupts could never arrive; every other line keeps
/// its state.
pub fn set_irq_enabled(masks: &mut IrqMasks, irq: u8, enabled: bool)
    requires
        irq <= MAX_IRQ,
    ensures
        final(masks).irq_enabled(irq) == enabled,
        forall|j: u8|
            j <= MAX_IRQ && j != irq && !(j == CASCADE_IRQ && irq >= 8 && enabled) ==> final(masks).irq_enabled(j) == old(masks).irq_enabled(j),
        irq >= 8 && enabled ==> final(masks).irq_enabled(CASCADE_IRQ),
{
    if irq < 8 {
        if enabled {
            clear_master_bit(masks, irq);
        } else {
            set_master_bit(masks, irq);
        }
    } else {
        let slave_irq = irq - 8;
        if enabled {
            clear_slave_bit(masks, slave_irq);
            // Keep the cascade line enabled when using secondary lines.
            clear_master_bit(masks, CASCADE_IRQ);
        } else {
            set_slave_bit(masks, slave_irq);
        }
    }
}

/// Clear one bit of the primary mask.
fn clear_master_bit(masks: &mut IrqMasks, bit: u8)
    requires
        bit < 8,
    ensures
        final(masks).slave == old(masks).slave,
        final(masks).master == old(masks).master & !(1u8 << bit),
        forall|j: u8| j < 8 && j != bit ==> ((final(masks).master & (1u8 << j) == 0) == (old(
            masks,
        ).master & (1u8 << j) == 0)),
        final(masks).master & (1u8 << bit) == 0,
{
    let m = masks.master;
    proof {
        assert forall|j: u8| j < 8 && j != bit implies ((m & !(1u8 << bit)) & (1u8 << j) == 0) == (
        m & (1u8 << j) == 0) by {
            assert(((m & !(1u8 << bit)) & (1u8 << j) == 0) == (m & (1u8 << j) == 0))
                by (bit_vector)
                requires
                    j < 8u8,
                    bit < 8u8,
                    j != bit,
            ;
        }
        assert((m & !(1u8 << bit)) & (1u8 << bit) == 0) by (bit_vector);
    }
    masks.master = m & !(1u8 << bit);
}

/// Set one bit of the primary mask.
fn set_master_bit(masks: &mut IrqMasks, bit: u8)
    requires
        bit < 8,
    ensures
        final(masks).slave == old(masks).slave,
        final(masks).master == old(masks).master | (1u8 << bit),
        forall|j: u8| j < 8 && j != bit ==> ((final(masks).master & (1u8 << j) == 0) == (old(
            masks,
        ).master & (1u8 << j) == 0)),
        final(masks).master & (1u8 << bit) != 0,
{
    let m = masks.master;
    proof {
        assert forall|j: u8| j < 8 && j != bit implies ((m | (1u8 << bit)) & (1u8 << j) == 0) == (m
            & (1u8 << j) == 0) by {
            assert(((m | (1u8 << bit)) & (1u8 << j) == 0) == (m & (1u8 << j) == 0)) by (bit_vector)
                requires
                    j < 8u8,
                    bit < 8u8,
                    j != bit,
            ;
        }
        assert((m | (1u8 << bit)) & (1u8 << bit) != 0) by (bit_vector)
            requires
                bit < 8u8,
        ;
    }
    masks.master = m | (1u8 << bit);
}

/// Clear one bit of the secondary mask.
fn clear_slave_bit(masks: &mut IrqMasks, bit: u8)
    requires
        bit < 8,
    ensures
        final(masks).master == old(masks).master,
        final(masks).slave == old(masks).slave & !(1u8 << bit),
        forall|j: u8| j < 8 && j != bit ==> ((final(masks).slave & (1u8 << j) == 0) == (old(
            masks,
        ).slave & (1u8 << j) == 0)),
        final(masks).slave & (1u8 << bit) == 0,
{
    let m = masks.slave;
    proof {
        assert forall|j: u8| j < 8 && j != bit implies ((m & !(1u8 << bit)) & (1u8 << j) == 0) == (
        m & (1u8 << j) == 0) by {
            assert(((m & !(1u8 << bit)) & (1u8 << j) == 0) == (m & (1u8 << j) == 0))
                by (bit_vector)
                requires
                    j < 8u8,
                    bit < 8u8,
                    j != bit,
            ;
        }
        assert((m & !(1u8 << bit)) & (1u8 << bit) == 0) by (bit_vector);
    }
    masks.slave = m & !(1u8 << bit);
}

/// Set one bit of the secondary mask.
fn set_slave_bit(masks: &mut IrqMasks, bit: u8)
    requires
        bit < 8,
    ensures
        final(masks).master == old(masks).master,
        final(masks).slave == old(masks).slave | (1u8 << bit),
        forall|j: u8| j < 8 && j != bit ==> ((final(masks).slave & (1u8 << j) == 0) == (old(
            masks,
        ).slave & (1u8 << j) == 0)),
        final(masks).slave & (1u8 << bit) != 0,
{
    let m = masks.slave;
    proof {
        assert forall|j: u8| j < 8 && j != bit implies ((m | (1u8 << bit)) & (1u8 << j) == 0) == (m
            & (1u8 << j) == 0) by {
            assert(((m | (1u8 << bit)) & (1u8 << j) == 0) == (m & (1u8 << j) == 0)) by (bit_vector)
                requires
                    j < 8u8,
                    bit < 8u8,
                    j != bit,
            ;
        }
        assert((m | (1u8 << bit)) & (1u8 << bit) != 0) by (bit_vector)
            requires
                bit < 8u8,
        ;
    }
    masks.slave = m | (1u8 << bit);
}

/// Enable one interrupt line.
pub fn enable_irq(masks: &mut IrqMasks, irq: u8)
    requires
        irq <= MAX_IRQ,
    ensures
        final(masks).irq_enabled(irq),
        forall|j: u8|
            j <= MAX_IRQ && j != irq && !(j == CASCADE_IRQ && irq >= 8) ==> final(masks).irq_enabled(j) == old(masks).irq_enabled(j),
        irq >= 8 ==> final(masks).irq_enabled(CASCADE_IRQ),
{
    set_irq_enabled(masks, irq, true);
}

/// Disable one interrupt line; every other line keeps its state.
pub fn disable_irq(masks: &mut IrqMasks, irq: u8)
    requires
        irq <= MAX_IRQ,
    ensures
        !final(masks).irq_enabled(irq),
        forall|j: u8|
            j <= MAX_IRQ && j != irq ==> final(masks).irq_enabled(j) == old(masks).irq_enabled(j),
{
    set_irq_enabled(masks, irq, false);
}

} // verus!
