//! What all devices have in common: a label, what is known of their registers,
//! and a configuration space.
use vstd::prelude::*;

use crate::mmio;
use crate::mmio::MmioDevice;

verus! {

/// The part that all devices have.
#[derive(Debug)]
pub struct Common {
    pub label: u32,
    pub mmio: Option<MmioDevice>,
    pub config_space: Option<Vec<u32>>,
}

/// `Common` with its lists as sequences.
pub struct Part {
    pub label: u32,
    pub mmio: Option<mmio::Registers>,
    pub config_space: Option<Seq<u32>>,
}

impl View for Common {
    type V = Part;

    open spec fn view(&self) -> Part {
        Part {
            label: self.label,
            mmio: registers(self.mmio),
            config_space: match self.config_space {
                Some(words) => Some(words@),
                None => None,
            },
        }
    }
}

/// The registers of an optional device.
pub open spec fn registers(mmio: Option<MmioDevice>) -> Option<mmio::Registers> {
    match mmio {
        Some(device) => Some(device@),
        None => None,
    }
}

/// A device with this label that was asked for and not yet created.
pub open spec fn fresh(label: u32) -> Part {
    Part { label, mmio: None, config_space: Some(Seq::empty()) }
}

/// A device that was asked for has its label, and nothing is known of it yet.
pub proof fn lemma_fresh_device_has_its_label(label: u32)
    ensures
        fresh(label).label == label,
        fresh(label).mmio is None,
        fresh(label).config_space matches Some(words) && words.len() == 0,
{
}

impl Common {
    /// A device that was asked for and not yet created.
    pub fn new(label: u32) -> (r: Common)
        ensures
            r@ == fresh(label),
    {
        Common { label, mmio: None, config_space: Some(Vec::new()) }
    }
}

/// A device of any kind.
pub trait VirtioDevice: Sized {
    /// The part that all devices have.
    spec fn common(&self) -> Common;

    /// This device with another common part.
    spec fn with_common(&self, c: Common) -> Self;

    /// The part that all devices have.
    fn common_ref(&self) -> (r: &Common)
        ensures
            *r == self.common(),
    ;

    /// The part that all devices have.
    fn common_mut(&mut self) -> (r: &mut Common)
        ensures
            *r == old(self).common(),
            *final(self) == old(self).with_common(*final(r)),
    ;
}

/// Takes from the devices what their threads need, with what is known of their
/// registers.
pub fn release<D: VirtioDevice>(devices: &mut Vec<D>, made: Vec<Option<MmioDevice>>) -> (r: Vec<
    Common,
>)
    requires
        old(devices)@.len() == made@.len(),
    ensures
        r@.len() == made@.len(),
        forall|i: int|
            0 <= i < made@.len() ==> #[trigger] r@[i] == (Common {
                mmio: made@[i],
                ..old(devices)@[i].common()
            }),
        final(devices)@.len() == old(devices)@.len(),
        forall|i: int|
            0 <= i < made@.len() ==> #[trigger] final(devices)@[i] == old(devices)@[i].with_common(
                Common { mmio: None, config_space: None, ..old(devices)@[i].common() },
            ),
{
    let ghost all = made@;
    let mut made = made;
    let mut r: Vec<Common> = Vec::new();
    let n: usize = devices.len();
    let mut i: usize = 0;
    while i < n
        invariant
            i <= n,
            n == all.len(),
            n == made@.len(),
            n == devices@.len(),
            n == old(devices)@.len(),
            r@.len() == i,
            forall|j: int| i <= j < n ==> made@[j] == all[j],
            forall|j: int| i <= j < n ==> devices@[j] == old(devices)@[j],
            forall|j: int|
                0 <= j < i ==> #[trigger] r@[j] == (Common {
                    mmio: all[j],
                    ..old(devices)@[j].common()
                }),
            forall|j: int|
                0 <= j < i ==> #[trigger] devices@[j] == old(devices)@[j].with_common(
                    Common { mmio: None, config_space: None, ..old(devices)@[j].common() },
                ),
        decreases n - i,
    {
        let device = made[i].take();
        let common = devices[i].common_mut();
        common.mmio = None;
        let config_space = common.config_space.take();
        r.push(Common { label: common.label, mmio: device, config_space });
        i += 1;
    }
    r
}

} // verus!
