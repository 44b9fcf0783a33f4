use vstd::prelude::*;

use crate::error::AlienResult;
use crate::rvec::RRefVec;

verus! {

/// Identity and liveness, which every domain has.
pub trait Basic {
    /// The domain's identity.
    spec fn id(&self) -> u64;

    fn domain_id(&self) -> (r: u64)
        ensures
            r == self.id(),
    ;

    fn is_active(&self) -> bool;
}

/// Interrupt handling, for domains that drive a device.
pub trait DeviceBase {
    /// `r` is what handling an interrupt may return; each domain says what
    /// that is.
    spec fn irq_handled(&self, r: AlienResult<()>) -> bool;

    fn handle_irq(&self) -> (r: AlienResult<()>)
        ensures
            self.irq_handled(r),
    ;
}

/// A shared handle has the identity of the domain it points to.
impl<T: Basic> Basic for std::sync::Arc<T> {
    open spec fn id(&self) -> u64 {
        (**self).id()
    }

    fn domain_id(&self) -> (r: u64) {
        (**self).domain_id()
    }

    fn is_active(&self) -> bool {
        (**self).is_active()
    }
}

/// A shared handle handles interrupts as the domain it points to.
impl<T: DeviceBase> DeviceBase for std::sync::Arc<T> {
    open spec fn irq_handled(&self, r: AlienResult<()>) -> bool {
        (**self).irq_handled(r)
    }

    fn handle_irq(&self) -> (r: AlienResult<()>) {
        (**self).handle_irq()
    }
}

/// A block device domain. Through a proxy, each of its operations is one
/// call of the proxy's `dispatch` (or `dispatch_relocated`, for the blocks
/// that cross the boundary), `handle_irq` is the proxy's own, and `init` is
/// the proxy's `init_by_box`.
pub trait BlkDeviceDomain: DeviceBase + Basic {
    fn init(&self, device_info: &core::ops::Range<usize>) -> AlienResult<()>;

    fn read_block(&self, block: u32, data: RRefVec<u8>) -> AlienResult<RRefVec<u8>>;

    fn write_block(&self, block: u32, data: &RRefVec<u8>) -> AlienResult<usize>;

    fn get_capacity(&self) -> AlienResult<u64>;

    fn flush(&self) -> AlienResult<()>;
}

/// A domain that shadows a block device domain, named at initialisation.
/// Its operations reach it through a proxy as those of [`BlkDeviceDomain`]
/// do.
pub trait ShadowBlockDomain: DeviceBase + Basic {
    fn init(&self, blk_domain: &str) -> AlienResult<()>;

    fn read_block(&self, block: u32, data: RRefVec<u8>) -> AlienResult<RRefVec<u8>>;

    fn write_block(&self, block: u32, data: &RRefVec<u8>) -> AlienResult<usize>;

    fn get_capacity(&self) -> AlienResult<u64>;

    fn flush(&self) -> AlienResult<()>;
}

} // verus!
