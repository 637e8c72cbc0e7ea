//! The manager of the automation system: the registry of device managers
//! that must be started before any automation dispatches.
//!
//! A device manager handles every device of one kind; each kind is known
//! here by a tag. The managers' own start-up work is I/O and belongs to the
//! driver; the registry rules — one manager per kind, the built-in manager
//! for unmanaged devices always present and first — are verified here.

use vstd::prelude::*;

verus! {

/// The tag of the built-in manager for devices that need no manager of
/// their own.
pub const UNMANAGED_MANAGER: u64 = 0;

/// This error occurs when a device manager was not registered when the
/// manager was built.
#[derive(Debug, Clone, Copy, PartialEq, Eq, Structural)]
pub struct DeviceManagerNotFound;

impl DeviceManagerNotFound {
    /// A human-readable description of this error.
    pub fn message(&self) -> (r: &'static str)
        ensures
            r@ == "Manager not registered"@,
    {
        "Manager not registered"
    }
}

/// Collects device managers before the manager is built.
pub struct ManagerBuilder {
    device_managers: Vec<u64>,
}

impl View for ManagerBuilder {
    type V = Seq<u64>;

    closed spec fn view(&self) -> Seq<u64> {
        self.device_managers@
    }
}

/// The overall manager of the automation system, where every device manager
/// is registered, each kind at most once.
pub struct Manager {
    device_managers: Vec<u64>,
}

impl View for Manager {
    type V = Seq<u64>;

    closed spec fn view(&self) -> Seq<u64> {
        self.device_managers@
    }
}

impl ManagerBuilder {
    /// Add a device manager by the tag of its kind; this is required to
    /// support the devices of that kind. If a manager of the given kind is
    /// already added, this call does nothing.
    #[verifier::loop_isolation(false)]
    pub fn add_device_manager(self, tag: u64) -> (r: Self)
        ensures
            r@ == (if self@.contains(tag) {
                self@
            } else {
                self@.push(tag)
            }),
    {
        let ghost orig = self@;
        let mut b = self;
        let n = b.device_managers.len();
        let mut i: usize = 0;
        while i < n
            invariant
                b@ == orig,
                i <= n,
                n == b@.len(),
                forall|j: int| 0 <= j < i ==> b@[j] != tag,
            decreases n - i,
        {
            if b.device_managers[i] == tag {
                proof {
                    assert(b@[i as int] == tag);
                    assert(b@.contains(tag));
                }
                return b;
            }
            i = i + 1;
        }
        proof {
            if b@.contains(tag) {
                let w = choose|w: int| 0 <= w < b@.len() && b@[w] == tag;
                assert(b@[w] != tag);
            }
        }
        b.device_managers.push(tag);
        b
    }

    /// Build the manager from the managers added so far; the built-in
    /// manager for unmanaged devices always comes first.
    pub fn build(self) -> (m: Manager)
        ensures
            m@ == seq![UNMANAGED_MANAGER] + self@,
    {
        Manager::new(self.device_managers)
    }
}

impl Manager {
    /// Start collecting device managers for a new manager.
    pub fn builder() -> (b: ManagerBuilder)
        ensures
            b@ == Seq::<u64>::empty(),
    {
        ManagerBuilder { device_managers: Vec::new() }
    }

    /// Create a new manager holding the given device managers, with the
    /// built-in manager for unmanaged devices inserted in front.
    pub fn new(device_managers: Vec<u64>) -> (m: Self)
        ensures
            m@ == seq![UNMANAGED_MANAGER] + device_managers@,
    {
        let mut device_managers = device_managers;
        device_managers.insert(0, UNMANAGED_MANAGER);
        proof {
            assert(device_managers@ =~= seq![UNMANAGED_MANAGER]
                + device_managers@.subrange(1, device_managers@.len() as int));
        }
        Manager { device_managers }
    }

    /// Fetch the given device manager: the position of the first manager
    /// registered under `tag`.
    ///
    /// # Errors
    /// Returns an error exactly when no manager of that kind was added when
    /// this manager was built.
    pub fn device_manager(&self, tag: u64) -> (r: Result<usize, DeviceManagerNotFound>)
        ensures
            match r {
                Ok(i) => {
                    &&& i < self@.len()
                    &&& self@[i as int] == tag
                    &&& forall|j: int| 0 <= j < i ==> self@[j] != tag
                },
                Err(e) => !self@.contains(tag) && e == DeviceManagerNotFound,
            },
    {
        let n = self.device_managers.len();
        let mut i: usize = 0;
        while i < n
            invariant
                i <= n,
                n == self@.len(),
                forall|j: int| 0 <= j < i ==> self@[j] != tag,
            decreases n - i,
        {
            if self.device_managers[i] == tag {
                return Ok(i);
            }
            i = i + 1;
        }
        proof {
            if self@.contains(tag) {
                let w = choose|w: int| 0 <= w < self@.len() && self@[w] == tag;
                assert(self@[w] != tag);
            }
        }
        Err(DeviceManagerNotFound)
    }

    /// How many device managers are registered.
    pub fn manager_count(&self) -> (r: usize)
        ensures
            r == self@.len(),
    {
        self.device_managers.len()
    }

    /// The tag of the device manager at `index`, in registration order.
    pub fn manager_tag(&self, index: usize) -> (r: u64)
        requires
            index < self@.len(),
        ensures
            r == self@[index as int],
    {
        self.device_managers[index]
    }
}

} // verus!
