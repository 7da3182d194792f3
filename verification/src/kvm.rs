//! The KVM virtual machine's fixed configuration: the API version it
//! needs and the interrupt routing table for the legacy PICs and the
//! IOAPIC. Issuing the ioctls is the caller's.
use vstd::prelude::*;
use crate::text::{dec, extend_str, push_dec, str_chars, string_from_chars};

verus! {

/// The KVM API version this VMM is written against.
pub const KVM_API_VERSION: i32 = 12;

/// Legacy (8259 PIC) interrupt lines.
pub const LEGACY_IRQS: u32 = 16;

/// IOAPIC interrupt lines.
pub const IOAPIC_IRQS: u32 = 24;

/// The KVM API version must be the one this VMM knows.
pub fn check_api_version(v: i32) -> (r: Result<(), String>)
    ensures
        v == 12 ==> r is Ok,
        v != 12 ==> (r matches Err(e) && e@ == "unexpected KVM API version "@ + (if v < 0 {
            seq!['-'] + dec((-v) as nat)
        } else {
            dec(v as nat)
        }) + " (expected 12)"@),
{
    if v == KVM_API_VERSION {
        return Ok(());
    }
    let mut s = str_chars("unexpected KVM API version ");
    if v < 0 {
        s.push('-');
        let m: i64 = -(v as i64);
        push_dec(&mut s, m as u64);
    } else {
        push_dec(&mut s, v as u64);
    }
    extend_str(&mut s, " (expected 12)");
    Err(string_from_chars(s.as_slice()))
}

/// An in-kernel interrupt controller.
#[derive(PartialEq, Eq, Structural, Clone, Copy, Debug)]
pub enum IrqChip {
    PicMaster,
    PicSlave,
    Ioapic,
}

/// One route: global system interrupt `gsi` goes to `pin` of `chip`.
#[derive(PartialEq, Eq, Structural, Clone, Copy, Debug)]
pub struct IrqRoute {
    pub gsi: u32,
    pub chip: IrqChip,
    pub pin: u32,
}

/// The route at position `i` of the standard x86 table: the sixteen
/// legacy lines to the PICs (0-7 master, 8-15 slave, pins 0-7), then the
/// twenty-four IOAPIC lines, each to its own pin.
pub open spec fn spec_route(i: int) -> IrqRoute {
    if i < 16 {
        IrqRoute {
            gsi: i as u32,
            chip: if i < 8 {
                IrqChip::PicMaster
            } else {
                IrqChip::PicSlave
            },
            pin: (i % 8) as u32,
        }
    } else {
        IrqRoute { gsi: (i - 16) as u32, chip: IrqChip::Ioapic, pin: (i - 16) as u32 }
    }
}

/// The interrupt routing table of a VM.
pub fn irq_routes() -> (r: Vec<IrqRoute>)
    ensures
        r@.len() == 40,
        forall|i: int| 0 <= i < 40 ==> #[trigger] r@[i] == spec_route(i),
{
    let mut r: Vec<IrqRoute> = Vec::new();
    let mut i: u32 = 0;
    while i < LEGACY_IRQS
        invariant
            i <= 16,
            r@.len() == i,
            forall|k: int| 0 <= k < i ==> #[trigger] r@[k] == spec_route(k),
        decreases 16 - i,
    {
        let chip = if i < 8 {
            IrqChip::PicMaster
        } else {
            IrqChip::PicSlave
        };
        r.push(IrqRoute { gsi: i, chip, pin: i % 8 });
        i = i + 1;
    }
    let mut j: u32 = 0;
    while j < IOAPIC_IRQS
        invariant
            j <= 24,
            r@.len() == 16 + j,
            forall|k: int| 0 <= k < 16 + j ==> #[trigger] r@[k] == spec_route(k),
        decreases 24 - j,
    {
        r.push(IrqRoute { gsi: j, chip: IrqChip::Ioapic, pin: j });
        j = j + 1;
    }
    r
}

} // verus!
