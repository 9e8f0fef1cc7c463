//! Mediated peripheral drivers: resource ownership, the driver registry and
//! the GPIO driver whose operations arrive as byte buffers from tasks.
use vstd::prelude::*;

verus! {

broadcast use vstd::array::group_array_axioms;

pub type TaskId = usize;

/// Driver error kinds.
#[derive(Debug, Clone, Copy, PartialEq, Eq, Structural)]
pub enum DriverError {
    NotInitialized,
    PermissionDenied,
    ResourceBusy,
    InvalidParameter,
    HardwareFault,
    TimeoutError,
    ConfigurationError,
}

impl DriverError {
    /// The human-readable text of the error.
    pub fn message(&self) -> (s: &'static str)
        ensures
            s@ == driver_error_text(*self)@,
    {
        match self {
            DriverError::NotInitialized => "Driver not initialized",
            DriverError::PermissionDenied => "Access permission denied",
            DriverError::ResourceBusy => "Hardware resource busy",
            DriverError::InvalidParameter => "Invalid parameter",
            DriverError::HardwareFault => "Hardware fault detected",
            DriverError::TimeoutError => "Operation timeout",
            DriverError::ConfigurationError => "Driver configuration error",
        }
    }
}

/// The text of each driver error.
pub open spec fn driver_error_text(e: DriverError) -> &'static str {
    match e {
        DriverError::NotInitialized => "Driver not initialized",
        DriverError::PermissionDenied => "Access permission denied",
        DriverError::ResourceBusy => "Hardware resource busy",
        DriverError::InvalidParameter => "Invalid parameter",
        DriverError::HardwareFault => "Hardware fault detected",
        DriverError::TimeoutError => "Operation timeout",
        DriverError::ConfigurationError => "Driver configuration error",
    }
}

/// Peripheral kinds.
#[derive(Debug, Clone, Copy, PartialEq, Eq, Structural)]
pub enum PeripheralType {
    GPIO,
    UART,
    SPI,
    I2C,
    CAN,
    ADC,
    PWM,
    Timer,
}

/// Does `s` hold `Some(t)` somewhere?
pub open spec fn holds_task(s: Seq<Option<TaskId>>, t: TaskId) -> bool {
    exists|i: int| 0 <= i < s.len() && s[i] == Some(t)
}

/// `i` is the first empty slot of `s`.
pub open spec fn is_first_empty(s: Seq<Option<TaskId>>, i: int) -> bool {
    &&& 0 <= i < s.len()
    &&& s[i] is None
    &&& forall|j: int| 0 <= j < i ==> s[j] is Some
}

/// `i` is the first slot of `s` that holds `Some(t)`.
pub open spec fn is_first_holding(s: Seq<Option<TaskId>>, i: int, t: TaskId) -> bool {
    &&& 0 <= i < s.len()
    &&& s[i] == Some(t)
    &&& forall|j: int| 0 <= j < i ==> s[j] != Some(t)
}

/// Does `s` have an empty slot?
pub open spec fn has_empty(s: Seq<Option<TaskId>>) -> bool {
    exists|i: int| 0 <= i < s.len() && s[i] is None
}

/// Put `Some(t)` into the first empty slot of `slots`; false when there is none.
fn fill_first_empty<const N: usize>(slots: &mut [Option<TaskId>; N], t: TaskId) -> (ok: bool)
    ensures
        ok == has_empty(old(slots)@),
        ok ==> exists|i: int|
            is_first_empty(old(slots)@, i) && final(slots)@ == old(slots)@.update(i, Some(t)),
        !ok ==> *final(slots) == *old(slots),
{
    let mut i: usize = 0;
    while i < N
        invariant
            0 <= i <= N,
            slots@.len() == N,
            *slots == *old(slots),
            forall|j: int| 0 <= j < i ==> slots@[j] is Some,
        decreases N - i,
    {
        if slots[i].is_none() {
            slots[i] = Some(t);
            assert(is_first_empty(old(slots)@, i as int));
            assert(slots@ == old(slots)@.update(i as int, Some(t)));
            return true;
        }
        i = i + 1;
    }
    assert(!has_empty(old(slots)@));
    false
}

/// Empty the first slot that holds `Some(t)`; false when none does.
fn clear_first_holding<const N: usize>(slots: &mut [Option<TaskId>; N], t: TaskId) -> (ok: bool)
    ensures
        ok == holds_task(old(slots)@, t),
        ok ==> exists|i: int|
            is_first_holding(old(slots)@, i, t) && final(slots)@ == old(slots)@.update(i, None),
        !ok ==> *final(slots) == *old(slots),
{
    let mut i: usize = 0;
    while i < N
        invariant
            0 <= i <= N,
            slots@.len() == N,
            *slots == *old(slots),
            forall|j: int| 0 <= j < i ==> slots@[j] != Some(t),
        decreases N - i,
    {
        let hit = match slots[i] {
            Some(x) => x == t,
            None => false,
        };
        if hit {
            slots[i] = None;
            assert(is_first_holding(old(slots)@, i as int, t));
            assert(slots@ == old(slots)@.update(i as int, None));
            return true;
        }
        i = i + 1;
    }
    assert(!holds_task(old(slots)@, t));
    false
}

/// Is `Some(t)` in `slots`?
fn slots_hold<const N: usize>(slots: &[Option<TaskId>; N], t: TaskId) -> (r: bool)
    ensures
        r == holds_task(slots@, t),
{
    let mut i: usize = 0;
    while i < N
        invariant
            0 <= i <= N,
            slots@.len() == N,
            forall|j: int| 0 <= j < i ==> slots@[j] != Some(t),
        decreases N - i,
    {
        let hit = match slots[i] {
            Some(x) => x == t,
            None => false,
        };
        if hit {
            return true;
        }
        i = i + 1;
    }
    false
}

/// Ownership and sharing of one peripheral.
#[derive(Debug, Clone, Copy)]
pub struct ResourceAccess {
    pub peripheral_type: PeripheralType,
    pub owner_task: Option<TaskId>,
    pub shared_tasks: [Option<TaskId>; 8],
    pub kernel_shared: bool,
    pub access_count: u32,
}

impl ResourceAccess {
    /// May task `t` use this resource: it owns it or holds a shared slot.
    pub open spec fn spec_can_access(self, t: TaskId) -> bool {
        self.owner_task == Some(t) || holds_task(self.shared_tasks@, t)
    }

    pub fn new(peripheral_type: PeripheralType) -> (r: Self)
        ensures
            r.is_fresh(peripheral_type),
    {
        Self {
            peripheral_type,
            owner_task: None,
            shared_tasks: [None; 8],
            kernel_shared: false,
            access_count: 0,
        }
    }

    /// Can a task access this resource?
    pub fn can_access(&self, task_id: TaskId) -> (r: bool)
        ensures
            r == self.spec_can_access(task_id),
    {
        let owns = match self.owner_task {
            Some(o) => o == task_id,
            None => false,
        };
        if owns {
            return true;
        }
        slots_hold(&self.shared_tasks, task_id)
    }

    /// `new` is `self` with `t` put into the first empty sharer slot.
    pub open spec fn spec_shared_granted(self, new: ResourceAccess, t: TaskId) -> bool {
        &&& exists|i: int|
            is_first_empty(self.shared_tasks@, i) && new.shared_tasks@ == self.shared_tasks@.update(
                i,
                Some(t),
            )
        &&& new.peripheral_type == self.peripheral_type
        &&& new.owner_task == self.owner_task
        &&& new.kernel_shared == self.kernel_shared
        &&& new.access_count == self.access_count
    }

    /// `new` is `self` with the first sharer slot that holds `t` emptied.
    pub open spec fn spec_shared_released(self, new: ResourceAccess, t: TaskId) -> bool {
        &&& exists|i: int|
            is_first_holding(self.shared_tasks@, i, t) && new.shared_tasks@
                == self.shared_tasks@.update(i, None)
        &&& new.peripheral_type == self.peripheral_type
        &&& new.owner_task == self.owner_task
        &&& new.kernel_shared == self.kernel_shared
        &&& new.access_count == self.access_count
    }

    /// A resource of type `ty` with no owner and no sharers.
    pub open spec fn is_fresh(self, ty: PeripheralType) -> bool {
        &&& self.peripheral_type == ty
        &&& self.owner_task is None
        &&& forall|i: int| 0 <= i < 8 ==> self.shared_tasks@[i] is None
        &&& !self.kernel_shared
        &&& self.access_count == 0
    }

    /// Grant shared access in the first free sharer slot.
    pub fn grant_shared_access(&mut self, task_id: TaskId) -> (r: Result<(), DriverError>)
        ensures
            r is Ok <==> has_empty(old(self).shared_tasks@),
            r is Ok ==> old(self).spec_shared_granted(*final(self), task_id),
            r is Err ==> r == Err::<(), DriverError>(DriverError::ResourceBusy) && *final(self)
                == *old(self),
    {
        if fill_first_empty(&mut self.shared_tasks, task_id) {
            Ok(())
        } else {
            Err(DriverError::ResourceBusy)
        }
    }

    /// Make a task the exclusive owner; refused while another owner holds it.
    pub fn set_owner(&mut self, task_id: TaskId) -> (r: Result<(), DriverError>)
        ensures
            old(self).owner_task is Some ==> r == Err::<(), DriverError>(DriverError::ResourceBusy)
                && *final(self) == *old(self),
            old(self).owner_task is None ==> r is Ok && *final(self) == (ResourceAccess {
                owner_task: Some(task_id),
                ..*old(self)
            }),
    {
        if self.owner_task.is_some() {
            return Err(DriverError::ResourceBusy);
        }
        self.owner_task = Some(task_id);
        Ok(())
    }

    /// Give up ownership; only the owner may.
    pub fn release_owner(&mut self, task_id: TaskId) -> (r: Result<(), DriverError>)
        ensures
            old(self).owner_task != Some(task_id) ==> r == Err::<(), DriverError>(
                DriverError::PermissionDenied,
            ) && *final(self) == *old(self),
            old(self).owner_task == Some(task_id) ==> r is Ok && *final(self) == (ResourceAccess {
                owner_task: None,
                ..*old(self)
            }),
    {
        let owns = match self.owner_task {
            Some(o) => o == task_id,
            None => false,
        };
        if !owns {
            return Err(DriverError::PermissionDenied);
        }
        self.owner_task = None;
        Ok(())
    }
}

/// The peripheral that `init` registers at `index` (0 to 4).
pub open spec fn initial_peripheral(index: int) -> PeripheralType {
    if index == 0 {
        PeripheralType::GPIO
    } else if index == 1 {
        PeripheralType::UART
    } else if index == 2 {
        PeripheralType::SPI
    } else if index == 3 {
        PeripheralType::I2C
    } else {
        PeripheralType::CAN
    }
}

/// The number of peripherals `init` registers.
pub const INITIAL_PERIPHERALS: usize = 5;

/// The registry of peripheral resources (up to 16).
pub struct DriverRegistry {
    resources: [Option<ResourceAccess>; 16],
    initialized: bool,
}

impl DriverRegistry {
    pub closed spec fn spec_resources(&self) -> Seq<Option<ResourceAccess>> {
        self.resources@
    }

    pub closed spec fn spec_initialized(&self) -> bool {
        self.initialized
    }

    /// Well-formed: sixteen entries, all empty before initialization.
    pub open spec fn wf(&self) -> bool {
        &&& self.spec_resources().len() == 16
        &&& !self.spec_initialized() ==> forall|i: int|
            0 <= i < 16 ==> #[trigger] self.spec_resources()[i] is None
    }

    /// May task `t` use peripheral `index`?
    pub open spec fn spec_check_access(&self, index: usize, t: TaskId) -> bool {
        &&& self.spec_initialized()
        &&& index < 16
        &&& self.spec_resources()[index as int] matches Some(ra) && ra.spec_can_access(t)
    }

    pub fn new() -> (r: Self)
        ensures
            r.wf(),
            !r.spec_initialized(),
    {
        Self { resources: [None; 16], initialized: false }
    }

    /// Register the five common peripherals; refused once initialized.
    pub fn init(&mut self) -> (r: Result<(), DriverError>)
        requires
            old(self).wf(),
        ensures
            final(self).wf(),
            old(self).spec_initialized() ==> r == Err::<(), DriverError>(
                DriverError::ConfigurationError,
            ) && *final(self) == *old(self),
            !old(self).spec_initialized() ==> {
                &&& r is Ok
                &&& final(self).spec_initialized()
                &&& forall|i: int|
                    0 <= i < 5 ==> (#[trigger] final(self).spec_resources()[i] matches Some(ra)
                        && ra.is_fresh(initial_peripheral(i)))
                &&& forall|i: int| 5 <= i < 16 ==> #[trigger] final(self).spec_resources()[i] is None
            },
    {
        if self.initialized {
            return Err(DriverError::ConfigurationError);
        }
        let ghost start = self.resources@;
        let r0 = self.register_peripheral(0, PeripheralType::GPIO);
        assert(r0 is Ok);
        let r1 = self.register_peripheral(1, PeripheralType::UART);
        assert(r1 is Ok);
        let r2 = self.register_peripheral(2, PeripheralType::SPI);
        assert(r2 is Ok);
        let r3 = self.register_peripheral(3, PeripheralType::I2C);
        assert(r3 is Ok);
        let r4 = self.register_peripheral(4, PeripheralType::CAN);
        assert(r4 is Ok);
        self.initialized = true;
        assert forall|i: int| 0 <= i < 5 implies (#[trigger] self.resources@[i] matches Some(ra)
            && ra.is_fresh(initial_peripheral(i))) by {}
        Ok(())
    }

    /// Put a fresh resource of type `ty` at `index`.
    fn register_peripheral(&mut self, index: usize, peripheral_type: PeripheralType) -> (r: Result<(), DriverError>)
        ensures
            index >= 16 ==> r == Err::<(), DriverError>(DriverError::InvalidParameter) && *final(self) == *old(self),
            index < 16 && old(self).resources@[index as int] is Some ==> r == Err::<(), DriverError>(DriverError::ConfigurationError) && *final(self) == *old(self),
            index < 16 && old(self).resources@[index as int] is None ==> r is Ok
                && final(self).initialized == old(self).initialized
                && final(self).resources@.len() == 16
                && (final(self).resources@[index as int] matches Some(ra) && ra.is_fresh(peripheral_type))
                && forall|j: int| 0 <= j < 16 && j != index ==> final(self).resources@[j] == old(self).resources@[j],
    {
        if index >= 16 {
            return Err(DriverError::InvalidParameter);
        }
        if self.resources[index].is_some() {
            return Err(DriverError::ConfigurationError);
        }
        self.resources[index] = Some(ResourceAccess::new(peripheral_type));
        Ok(())
    }

    /// A task asks for peripheral `index`, as exclusive owner or as a sharer.
    pub fn request_access(&mut self, peripheral_index: usize, task_id: TaskId, exclusive: bool) -> (r:
        Result<(), DriverError>)
        requires
            old(self).wf(),
        ensures
            final(self).wf(),
            final(self).spec_initialized() == old(self).spec_initialized(),
            !old(self).spec_initialized() || peripheral_index >= 16 ==> r == Err::<(), DriverError>(
                DriverError::InvalidParameter,
            ) && *final(self) == *old(self),
            old(self).spec_initialized() && peripheral_index < 16 ==> match old(self).spec_resources()[peripheral_index as int] {
                None => r == Err::<(), DriverError>(DriverError::NotInitialized) && *final(self)
                    == *old(self),
                Some(ra) => {
                    &&& forall|j: int|
                        0 <= j < 16 && j != peripheral_index ==> final(self).spec_resources()[j]
                            == old(self).spec_resources()[j]
                    &&& if exclusive {
                        if ra.owner_task is Some {
                            r == Err::<(), DriverError>(DriverError::ResourceBusy) && *final(self)
                                == *old(self)
                        } else {
                            r is Ok && final(self).spec_resources()[peripheral_index as int] == Some(
                                ResourceAccess { owner_task: Some(task_id), ..ra },
                            )
                        }
                    } else {
                        if has_empty(ra.shared_tasks@) {
                            r is Ok && (final(self).spec_resources()[peripheral_index as int] matches Some(na) && ra.spec_shared_granted(na, task_id))
                        } else {
                            r == Err::<(), DriverError>(DriverError::ResourceBusy) && *final(self)
                                == *old(self)
                        }
                    }
                },
            },
    {
        if !self.initialized || peripheral_index >= 16 {
            return Err(DriverError::InvalidParameter);
        }
        let mut resource = match self.resources[peripheral_index] {
            Some(ra) => ra,
            None => {
                return Err(DriverError::NotInitialized);
            },
        };
        let r = if exclusive {
            resource.set_owner(task_id)
        } else {
            resource.grant_shared_access(task_id)
        };
        if r.is_ok() {
            self.resources[peripheral_index] = Some(resource);
        }
        r
    }

    /// May a task use peripheral `index`?
    pub fn check_access(&self, peripheral_index: usize, task_id: TaskId) -> (r: bool)
        ensures
            r == self.spec_check_access(peripheral_index, task_id),
    {
        if !self.initialized || peripheral_index >= 16 {
            return false;
        }
        match &self.resources[peripheral_index] {
            Some(resource) => resource.can_access(task_id),
            None => false,
        }
    }

    /// A task gives back peripheral `index`: as its owner if it owns it,
    /// else from the first sharer slot that holds it.
    pub fn release_access(&mut self, peripheral_index: usize, task_id: TaskId) -> (r: Result<(), DriverError>)
        requires
            old(self).wf(),
        ensures
            final(self).wf(),
            final(self).spec_initialized() == old(self).spec_initialized(),
            !old(self).spec_initialized() || peripheral_index >= 16 ==> r == Err::<(), DriverError>(
                DriverError::InvalidParameter,
            ) && *final(self) == *old(self),
            old(self).spec_initialized() && peripheral_index < 16 ==> match old(self).spec_resources()[peripheral_index as int] {
                None => r == Err::<(), DriverError>(DriverError::NotInitialized) && *final(self)
                    == *old(self),
                Some(ra) => {
                    &&& forall|j: int|
                        0 <= j < 16 && j != peripheral_index ==> final(self).spec_resources()[j]
                            == old(self).spec_resources()[j]
                    &&& if ra.owner_task == Some(task_id) {
                        r is Ok && final(self).spec_resources()[peripheral_index as int] == Some(
                            ResourceAccess { owner_task: None, ..ra },
                        )
                    } else if holds_task(ra.shared_tasks@, task_id) {
                        r is Ok && (final(self).spec_resources()[peripheral_index as int] matches Some(na) && ra.spec_shared_released(na, task_id))
                    } else {
                        r == Err::<(), DriverError>(DriverError::PermissionDenied) && *final(self)
                            == *old(self)
                    }
                },
            },
    {
        if !self.initialized || peripheral_index >= 16 {
            return Err(DriverError::InvalidParameter);
        }
        let mut resource = match self.resources[peripheral_index] {
            Some(ra) => ra,
            None => {
                return Err(DriverError::NotInitialized);
            },
        };
        let owns = match resource.owner_task {
            Some(o) => o == task_id,
            None => false,
        };
        if owns {
            let r = resource.release_owner(task_id);
            self.resources[peripheral_index] = Some(resource);
            return r;
        }
        if clear_first_holding(&mut resource.shared_tasks, task_id) {
            self.resources[peripheral_index] = Some(resource);
            return Ok(());
        }
        Err(DriverError::PermissionDenied)
    }
}

/// Exclusive ownership given and then given back leaves the resource as it
/// was.
pub proof fn lemma_owner_round_trip(ra: ResourceAccess, t: TaskId)
    requires
        ra.owner_task is None,
    ensures
        (ResourceAccess { owner_task: None, ..ResourceAccess { owner_task: Some(t), ..ra } }) == ra,
{
}

/// A sharer slot granted to a task that held none, and then released by
/// it, leaves the resource as it was.
pub proof fn lemma_shared_round_trip(ra: ResourceAccess, granted: ResourceAccess, released: ResourceAccess, t: TaskId)
    requires
        !holds_task(ra.shared_tasks@, t),
        ra.spec_shared_granted(granted, t),
        granted.spec_shared_released(released, t),
    ensures
        released.shared_tasks@ == ra.shared_tasks@,
        released.peripheral_type == ra.peripheral_type,
        released.owner_task == ra.owner_task,
        released.kernel_shared == ra.kernel_shared,
        released.access_count == ra.access_count,
{
    let i = choose|i: int|
        is_first_empty(ra.shared_tasks@, i) && granted.shared_tasks@ == ra.shared_tasks@.update(i, Some(t));
    let k = choose|k: int|
        is_first_holding(granted.shared_tasks@, k, t) && released.shared_tasks@ == granted.shared_tasks@.update(k, None);
    if k < i {
        assert(granted.shared_tasks@[k] == ra.shared_tasks@[k]);
        assert(holds_task(ra.shared_tasks@, t));
    }
    if k > i {
        assert(granted.shared_tasks@[i] == Some(t));
    }
    assert(k == i);
    assert(released.shared_tasks@ =~= ra.shared_tasks@);
}

/// A granted task may use the resource, whichever way it was granted.
pub proof fn lemma_granted_can_access(ra: ResourceAccess, granted: ResourceAccess, t: TaskId)
    requires
        ra.spec_shared_granted(granted, t) || granted == (ResourceAccess { owner_task: Some(t), ..ra }),
    ensures
        granted.spec_can_access(t),
{
    if ra.spec_shared_granted(granted, t) {
        let i = choose|i: int|
            is_first_empty(ra.shared_tasks@, i) && granted.shared_tasks@ == ra.shared_tasks@.update(i, Some(t));
        assert(granted.shared_tasks@[i] == Some(t));
    }
}

/// `new` is `old` with task `t` granted peripheral `index`: as its owner
/// when exclusive, else in the first free sharer slot; the other
/// peripherals are unchanged.
pub open spec fn access_granted(old: DriverRegistry, new: DriverRegistry, index: usize, t: TaskId, exclusive: bool) -> bool {
    &&& new.spec_resources().len() == 16
    &&& index < 16
    &&& forall|j: int| 0 <= j < 16 && j != index ==> new.spec_resources()[j] == old.spec_resources()[j]
    &&& old.spec_resources()[index as int] matches Some(ra)
    &&& new.spec_resources()[index as int] matches Some(na)
    &&& if exclusive {
        na == (ResourceAccess { owner_task: Some(t), ..ra })
    } else {
        ra.spec_shared_granted(na, t)
    }
}

/// `new` is `old` with task `t`'s hold on peripheral `index` given back:
/// its ownership if it owns it, else its first sharer slot; the other
/// peripherals are unchanged.
pub open spec fn access_released(old: DriverRegistry, new: DriverRegistry, index: usize, t: TaskId) -> bool {
    &&& new.spec_resources().len() == 16
    &&& index < 16
    &&& forall|j: int| 0 <= j < 16 && j != index ==> new.spec_resources()[j] == old.spec_resources()[j]
    &&& old.spec_resources()[index as int] matches Some(ra)
    &&& new.spec_resources()[index as int] matches Some(na)
    &&& if ra.owner_task == Some(t) {
        na == (ResourceAccess { owner_task: None, ..ra })
    } else {
        ra.spec_shared_released(na, t)
    }
}

/// Access granted to a task that held none on the peripheral (exclusive
/// access only where it had no owner, as a grant requires), and then given
/// back by it, leaves every resource of the registry as it was.
pub proof fn lemma_registry_grant_release(
    old: DriverRegistry,
    granted: DriverRegistry,
    released: DriverRegistry,
    index: usize,
    t: TaskId,
    exclusive: bool,
)
    requires
        old.wf(),
        access_granted(old, granted, index, t, exclusive),
        access_released(granted, released, index, t),
        old.spec_resources()[index as int] matches Some(ra) && ra.owner_task != Some(t) && !holds_task(
            ra.shared_tasks@,
            t,
        ) && (exclusive ==> ra.owner_task is None),
    ensures
        released.spec_resources() == old.spec_resources(),
{
    let ra = old.spec_resources()[index as int]->0;
    let ga = granted.spec_resources()[index as int]->0;
    let na = released.spec_resources()[index as int]->0;
    if exclusive {
        assert(ga.owner_task == Some(t));
        assert(na == ra);
    } else {
        assert(ga.owner_task == ra.owner_task);
        lemma_shared_round_trip(ra, ga, na, t);
        assert(na.shared_tasks == ra.shared_tasks) by {
            assert(na.shared_tasks@ =~= ra.shared_tasks@);
        }
        assert(na == ra);
    }
    assert(released.spec_resources() =~= old.spec_resources());
}

/// Register the common peripherals in the registry.
pub fn init_driver_framework(registry: &mut DriverRegistry) -> (r: Result<(), DriverError>)
    requires
        old(registry).wf(),
    ensures
        final(registry).wf(),
        old(registry).spec_initialized() ==> r == Err::<(), DriverError>(DriverError::ConfigurationError)
            && *final(registry) == *old(registry),
        !old(registry).spec_initialized() ==> r is Ok && final(registry).spec_initialized(),
{
    registry.init()
}

/// May a task use a peripheral?
pub fn check_peripheral_access(registry: &DriverRegistry, peripheral_index: usize, task_id: TaskId) -> (r: bool)
    ensures
        r == registry.spec_check_access(peripheral_index, task_id),
{
    registry.check_access(peripheral_index, task_id)
}

/// A task asks for a peripheral (see `DriverRegistry::request_access`).
pub fn request_peripheral_access(
    registry: &mut DriverRegistry,
    peripheral_index: usize,
    task_id: TaskId,
    exclusive: bool,
) -> (r: Result<(), DriverError>)
    requires
        old(registry).wf(),
    ensures
        final(registry).wf(),
        final(registry).spec_initialized() == old(registry).spec_initialized(),
        r is Ok ==> final(registry).spec_check_access(peripheral_index, task_id),
        r is Err ==> *final(registry) == *old(registry),
        r is Ok <==> old(registry).spec_initialized() && peripheral_index < 16
            && (old(registry).spec_resources()[peripheral_index as int] matches Some(ra)
            && if exclusive { ra.owner_task is None } else { has_empty(ra.shared_tasks@) }),
        r is Ok ==> access_granted(*old(registry), *final(registry), peripheral_index, task_id, exclusive),
{
    let r = registry.request_access(peripheral_index, task_id, exclusive);
    proof {
        if r is Ok && !exclusive {
            let ra = old(registry).spec_resources()[peripheral_index as int]->0;
            let na = registry.spec_resources()[peripheral_index as int]->0;
            let i = choose|i: int| is_first_empty(ra.shared_tasks@, i)
                && na.shared_tasks@ == ra.shared_tasks@.update(i, Some(task_id));
            assert(na.shared_tasks@[i] == Some(task_id));
        }
    }
    r
}

/// A task gives back a peripheral (see `DriverRegistry::release_access`).
pub fn release_peripheral_access(registry: &mut DriverRegistry, peripheral_index: usize, task_id: TaskId) -> (r: Result<(), DriverError>)
    requires
        old(registry).wf(),
    ensures
        final(registry).wf(),
        final(registry).spec_initialized() == old(registry).spec_initialized(),
        r is Err ==> *final(registry) == *old(registry),
        r is Ok <==> old(registry).spec_check_access(peripheral_index, task_id),
        r is Ok ==> access_released(*old(registry), *final(registry), peripheral_index, task_id),
{
    registry.release_access(peripheral_index, task_id)
}

/// The configuration of one GPIO pin.
#[derive(Debug, Clone, Copy, PartialEq, Eq, Structural)]
pub struct GpioConfig {
    pub port: u8,
    pub pin: u8,
    pub mode: GpioMode,
    pub pull: GpioPull,
    pub speed: GpioSpeed,
}

#[derive(Debug, Clone, Copy, PartialEq, Eq, Structural)]
pub enum GpioMode {
    Input,
    Output,
    Alternate(u8),
    Analog,
}

#[derive(Debug, Clone, Copy, PartialEq, Eq, Structural)]
pub enum GpioPull {
    Floating,
    Up,
    Down,
}

#[derive(Debug, Clone, Copy, PartialEq, Eq, Structural)]
pub enum GpioSpeed {
    Low,
    Medium,
    High,
    VeryHigh,
}

/// A GPIO operation decoded from a task's buffer.
#[derive(Debug, Clone, Copy, PartialEq, Eq, Structural)]
pub enum GpioOperation {
    Read,
    Write(bool),
    Configure(GpioConfig),
    Toggle,
}

/// What a GPIO operation hands back.
#[derive(Debug, Clone, Copy, PartialEq, Eq, Structural)]
pub enum GpioHandle {
    ReadResult(bool),
    WriteSuccess,
    ConfigureSuccess,
    ToggleSuccess,
}

/// The mode byte (with the alternate-function byte `alt`).
pub open spec fn mode_from_byte(b: u8, alt: u8) -> Option<GpioMode> {
    if b == 0 {
        Some(GpioMode::Input)
    } else if b == 1 {
        Some(GpioMode::Output)
    } else if b == 2 {
        Some(GpioMode::Alternate(alt))
    } else if b == 3 {
        Some(GpioMode::Analog)
    } else {
        None
    }
}

pub open spec fn pull_from_byte(b: u8) -> Option<GpioPull> {
    if b == 0 {
        Some(GpioPull::Floating)
    } else if b == 1 {
        Some(GpioPull::Up)
    } else if b == 2 {
        Some(GpioPull::Down)
    } else {
        None
    }
}

pub open spec fn speed_from_byte(b: u8) -> Option<GpioSpeed> {
    if b == 0 {
        Some(GpioSpeed::Low)
    } else if b == 1 {
        Some(GpioSpeed::Medium)
    } else if b == 2 {
        Some(GpioSpeed::High)
    } else if b == 3 {
        Some(GpioSpeed::VeryHigh)
    } else {
        None
    }
}

/// The operation a buffer encodes: `[0]` read, `[1, v]` write `v != 0`,
/// `[2, port, pin, mode, pull, speed]` configure, `[3]` toggle.
pub open spec fn parse_gpio_operation(d: Seq<u8>) -> Result<GpioOperation, DriverError> {
    if d.len() == 0 {
        Err(DriverError::InvalidParameter)
    } else if d[0] == 0 {
        Ok(GpioOperation::Read)
    } else if d[0] == 1 {
        if d.len() >= 2 {
            Ok(GpioOperation::Write(d[1] != 0))
        } else {
            Err(DriverError::InvalidParameter)
        }
    } else if d[0] == 2 {
        if d.len() >= 6 && mode_from_byte(d[3], d[4]) is Some && pull_from_byte(d[4]) is Some
            && speed_from_byte(d[5]) is Some {
            Ok(
                GpioOperation::Configure(
                    GpioConfig {
                        port: d[1],
                        pin: d[2],
                        mode: mode_from_byte(d[3], d[4])->0,
                        pull: pull_from_byte(d[4])->0,
                        speed: speed_from_byte(d[5])->0,
                    },
                ),
            )
        } else {
            Err(DriverError::InvalidParameter)
        }
    } else if d[0] == 3 {
        Ok(GpioOperation::Toggle)
    } else {
        Err(DriverError::InvalidParameter)
    }
}

/// A read by an authorized task of a started driver gives, for every pin
/// address in range (port 0 to 7, pin 0 to 15), high exactly for the even
/// pins, and refuses every other pin address as an invalid parameter.
pub proof fn lemma_gpio_read_level(authorized: Seq<Option<TaskId>>, t: TaskId, port: u8, pin: u8)
    requires
        holds_task(authorized, t),
    ensures
        simulated_level(pin) <==> pin % 2 == 0,
        port <= 7 && pin <= 15 ==> mediated_result(true, authorized, t, seq![0u8, port, pin])
            == Ok::<GpioHandle, DriverError>(GpioHandle::ReadResult(pin % 2 == 0)),
        !(port <= 7 && pin <= 15) ==> mediated_result(true, authorized, t, seq![0u8, port, pin])
            == Err::<GpioHandle, DriverError>(DriverError::InvalidParameter),
{
    let d = seq![0u8, port, pin];
    assert(d.len() == 3 && d[0] == 0 && d[1] == port && d[2] == pin);
}

/// A pin address the driver accepts: port 0 to 7, pin 0 to 15.
pub open spec fn pin_in_range(port: u8, pin: u8) -> bool {
    port <= 7 && pin <= 15
}

/// The configuration slot of a pin: sixteen slots per port.
pub open spec fn config_slot(port: u8, pin: u8) -> int {
    port * 16 + pin
}

/// The simulated input level of a pin: even pins read high.
pub open spec fn simulated_level(pin: u8) -> bool {
    pin % 2 == 0
}

/// The result of a mediated operation, for a driver in the given state.
pub open spec fn mediated_result(
    initialized: bool,
    authorized: Seq<Option<TaskId>>,
    t: TaskId,
    d: Seq<u8>,
) -> Result<GpioHandle, DriverError> {
    if !initialized {
        Err(DriverError::NotInitialized)
    } else if !holds_task(authorized, t) {
        Err(DriverError::PermissionDenied)
    } else {
        match parse_gpio_operation(d) {
            Err(e) => Err(e),
            Ok(GpioOperation::Read) => {
                if d.len() >= 3 && pin_in_range(d[1], d[2]) {
                    Ok(GpioHandle::ReadResult(simulated_level(d[2])))
                } else {
                    Err(DriverError::InvalidParameter)
                }
            },
            Ok(GpioOperation::Write(_)) => {
                if d.len() >= 4 && pin_in_range(d[2], d[3]) {
                    Ok(GpioHandle::WriteSuccess)
                } else {
                    Err(DriverError::InvalidParameter)
                }
            },
            Ok(GpioOperation::Configure(c)) => {
                if pin_in_range(c.port, c.pin) {
                    Ok(GpioHandle::ConfigureSuccess)
                } else {
                    Err(DriverError::InvalidParameter)
                }
            },
            Ok(GpioOperation::Toggle) => {
                if d.len() >= 3 && pin_in_range(d[1], d[2]) {
                    Ok(GpioHandle::ToggleSuccess)
                } else {
                    Err(DriverError::InvalidParameter)
                }
            },
        }
    }
}

/// The peripheral driver interface: lifecycle, access control and
/// operations mediated on behalf of tasks.
pub trait Driver {
    type Config;

    type Handle;

    fn init(&mut self, config: Self::Config) -> Result<(), DriverError>;

    fn shutdown(&mut self) -> Result<(), DriverError>;

    fn check_access_permission(&self, task_id: TaskId) -> bool;

    fn grant_access(&mut self, task_id: TaskId) -> Result<(), DriverError>;

    fn revoke_access(&mut self, task_id: TaskId) -> Result<(), DriverError>;

    fn is_initialized(&self) -> bool;

    fn mediated_operation(&mut self, task_id: TaskId, operation: &[u8]) -> Result<Self::Handle, DriverError>;
}

/// The GPIO driver: up to 8 authorized tasks and a configuration slot for
/// each of the 16 pins of each of the 8 ports.
pub struct GpioDriver {
    initialized: bool,
    authorized_tasks: [Option<TaskId>; 8],
    gpio_configs: [Option<GpioConfig>; 128],
}

impl GpioDriver {
    pub closed spec fn spec_initialized(&self) -> bool {
        self.initialized
    }

    pub closed spec fn spec_authorized(&self) -> Seq<Option<TaskId>> {
        self.authorized_tasks@
    }

    pub closed spec fn spec_configs(&self) -> Seq<Option<GpioConfig>> {
        self.gpio_configs@
    }

    /// The configurations after a mediated operation.
    pub open spec fn configs_after(&self, t: TaskId, d: Seq<u8>) -> Seq<Option<GpioConfig>> {
        match (mediated_result(self.spec_initialized(), self.spec_authorized(), t, d), parse_gpio_operation(d)) {
            (Ok(GpioHandle::ConfigureSuccess), Ok(GpioOperation::Configure(c))) =>
                self.spec_configs().update(config_slot(c.port, c.pin), Some(c)),
            _ => self.spec_configs(),
        }
    }

    pub fn new() -> (r: Self)
        ensures
            !r.spec_initialized(),
            r.spec_authorized().len() == 8,
            forall|i: int| 0 <= i < 8 ==> r.spec_authorized()[i] is None,
            r.spec_configs().len() == 128,
            forall|i: int| 0 <= i < 128 ==> r.spec_configs()[i] is None,
    {
        Self { initialized: false, authorized_tasks: [None; 8], gpio_configs: [None; 128] }
    }

    /// Record a pin configuration in the slot of its port and pin.
    fn configure_pin(&mut self, config: GpioConfig) -> (r: Result<(), DriverError>)
        ensures
            final(self).initialized == old(self).initialized,
            final(self).authorized_tasks == old(self).authorized_tasks,
            pin_in_range(config.port, config.pin) ==> r is Ok && final(self).gpio_configs@
                == old(self).gpio_configs@.update(config_slot(config.port, config.pin), Some(config)),
            !pin_in_range(config.port, config.pin) ==> r == Err::<(), DriverError>(DriverError::InvalidParameter)
                && final(self).gpio_configs == old(self).gpio_configs,
    {
        if config.port > 7 || config.pin > 15 {
            return Err(DriverError::InvalidParameter);
        }
        let pin_index = (config.port * 16 + config.pin) as usize;
        if pin_index < 128 {
            self.gpio_configs[pin_index] = Some(config);
            Ok(())
        } else {
            Err(DriverError::InvalidParameter)
        }
    }

    /// Read a pin (simulated: even pins read high).
    fn read_pin(&self, port: u8, pin: u8) -> (r: Result<bool, DriverError>)
        ensures
            pin_in_range(port, pin) ==> r == Ok::<bool, DriverError>(simulated_level(pin)),
            !pin_in_range(port, pin) ==> r == Err::<bool, DriverError>(DriverError::InvalidParameter),
    {
        if port > 7 || pin > 15 {
            return Err(DriverError::InvalidParameter);
        }
        Ok(pin % 2 == 0)
    }

    /// Write a pin (simulated: validation only).
    fn write_pin(&mut self, port: u8, pin: u8, value: bool) -> (r: Result<(), DriverError>)
        ensures
            *final(self) == *old(self),
            pin_in_range(port, pin) ==> r is Ok,
            !pin_in_range(port, pin) ==> r == Err::<(), DriverError>(DriverError::InvalidParameter),
    {
        if port > 7 || pin > 15 {
            return Err(DriverError::InvalidParameter);
        }
        Ok(())
    }

    /// Toggle a pin: read it, then write the opposite level.
    fn toggle_pin(&mut self, port: u8, pin: u8) -> (r: Result<(), DriverError>)
        ensures
            *final(self) == *old(self),
            pin_in_range(port, pin) ==> r is Ok,
            !pin_in_range(port, pin) ==> r == Err::<(), DriverError>(DriverError::InvalidParameter),
    {
        let current = match self.read_pin(port, pin) {
            Ok(v) => v,
            Err(e) => {
                return Err(e);
            },
        };
        self.write_pin(port, pin, !current)
    }

    /// Decode an operation buffer.
    fn parse_operation(&self, operation_data: &[u8]) -> (r: Result<GpioOperation, DriverError>)
        ensures
            r == parse_gpio_operation(operation_data@),
    {
        if operation_data.len() == 0 {
            return Err(DriverError::InvalidParameter);
        }
        match operation_data[0] {
            0x00 => Ok(GpioOperation::Read),
            0x01 => {
                if operation_data.len() >= 2 {
                    Ok(GpioOperation::Write(operation_data[1] != 0))
                } else {
                    Err(DriverError::InvalidParameter)
                }
            },
            0x02 => {
                if operation_data.len() >= 6 {
                    let mode = match operation_data[3] {
                        0 => GpioMode::Input,
                        1 => GpioMode::Output,
                        2 => GpioMode::Alternate(operation_data[4]),
                        3 => GpioMode::Analog,
                        _ => {
                            return Err(DriverError::InvalidParameter);
                        },
                    };
                    let pull = match operation_data[4] {
                        0 => GpioPull::Floating,
                        1 => GpioPull::Up,
                        2 => GpioPull::Down,
                        _ => {
                            return Err(DriverError::InvalidParameter);
                        },
                    };
                    let speed = match operation_data[5] {
                        0 => GpioSpeed::Low,
                        1 => GpioSpeed::Medium,
                        2 => GpioSpeed::High,
                        3 => GpioSpeed::VeryHigh,
                        _ => {
                            return Err(DriverError::InvalidParameter);
                        },
                    };
                    let config = GpioConfig {
                        port: operation_data[1],
                        pin: operation_data[2],
                        mode,
                        pull,
                        speed,
                    };
                    Ok(GpioOperation::Configure(config))
                } else {
                    Err(DriverError::InvalidParameter)
                }
            },
            0x03 => Ok(GpioOperation::Toggle),
            _ => Err(DriverError::InvalidParameter),
        }
    }
}

impl Driver for GpioDriver {
    type Config = ();

    type Handle = GpioHandle;

    /// Start the driver; refused when it is already running.
    fn init(&mut self, config: ()) -> (r: Result<(), DriverError>)
        ensures
            old(self).spec_initialized() ==> r == Err::<(), DriverError>(DriverError::ConfigurationError)
                && *final(self) == *old(self),
            !old(self).spec_initialized() ==> r is Ok && final(self).spec_initialized()
                && final(self).spec_authorized() == old(self).spec_authorized()
                && final(self).spec_configs() == old(self).spec_configs(),
    {
        if self.initialized {
            return Err(DriverError::ConfigurationError);
        }
        self.initialized = true;
        Ok(())
    }

    /// Stop the driver, forgetting every configuration and authorization.
    fn shutdown(&mut self) -> (r: Result<(), DriverError>)
        ensures
            !old(self).spec_initialized() ==> r == Err::<(), DriverError>(DriverError::NotInitialized)
                && *final(self) == *old(self),
            old(self).spec_initialized() ==> r is Ok && !final(self).spec_initialized()
                && final(self).spec_authorized().len() == 8
                && (forall|i: int| 0 <= i < 8 ==> final(self).spec_authorized()[i] is None)
                && final(self).spec_configs().len() == 128
                && (forall|i: int| 0 <= i < 128 ==> final(self).spec_configs()[i] is None),
    {
        if !self.initialized {
            return Err(DriverError::NotInitialized);
        }
        self.gpio_configs = [None; 128];
        self.authorized_tasks = [None; 8];
        self.initialized = false;
        Ok(())
    }

    fn check_access_permission(&self, task_id: TaskId) -> (r: bool)
        ensures
            r == holds_task(self.spec_authorized(), task_id),
    {
        slots_hold(&self.authorized_tasks, task_id)
    }

    /// Authorize a task in the first free slot.
    fn grant_access(&mut self, task_id: TaskId) -> (r: Result<(), DriverError>)
        ensures
            final(self).spec_initialized() == old(self).spec_initialized(),
            final(self).spec_configs() == old(self).spec_configs(),
            !old(self).spec_initialized() ==> r == Err::<(), DriverError>(DriverError::NotInitialized)
                && *final(self) == *old(self),
            old(self).spec_initialized() && !has_empty(old(self).spec_authorized()) ==> r == Err::<
                (), DriverError>(DriverError::ResourceBusy) && *final(self) == *old(self),
            old(self).spec_initialized() && has_empty(old(self).spec_authorized()) ==> r is Ok
                && exists|i: int|
                is_first_empty(old(self).spec_authorized(), i) && final(self).spec_authorized()
                    == old(self).spec_authorized().update(i, Some(task_id)),
    {
        if !self.initialized {
            return Err(DriverError::NotInitialized);
        }
        if fill_first_empty(&mut self.authorized_tasks, task_id) {
            Ok(())
        } else {
            Err(DriverError::ResourceBusy)
        }
    }

    /// Withdraw a task's authorization (its first slot).
    fn revoke_access(&mut self, task_id: TaskId) -> (r: Result<(), DriverError>)
        ensures
            final(self).spec_initialized() == old(self).spec_initialized(),
            final(self).spec_configs() == old(self).spec_configs(),
            !old(self).spec_initialized() ==> r == Err::<(), DriverError>(DriverError::NotInitialized)
                && *final(self) == *old(self),
            old(self).spec_initialized() && !holds_task(old(self).spec_authorized(), task_id) ==> r
                == Err::<(), DriverError>(DriverError::PermissionDenied) && *final(self) == *old(self),
            old(self).spec_initialized() && holds_task(old(self).spec_authorized(), task_id) ==> r is Ok
                && exists|i: int|
                is_first_holding(old(self).spec_authorized(), i, task_id) && final(self).spec_authorized()
                    == old(self).spec_authorized().update(i, None),
    {
        if !self.initialized {
            return Err(DriverError::NotInitialized);
        }
        if clear_first_holding(&mut self.authorized_tasks, task_id) {
            Ok(())
        } else {
            Err(DriverError::PermissionDenied)
        }
    }

    fn is_initialized(&self) -> (r: bool)
        ensures
            r == self.spec_initialized(),
    {
        self.initialized
    }

    /// Check the caller's authorization, decode its buffer and carry the operation out.
    fn mediated_operation(&mut self, task_id: TaskId, operation_data: &[u8]) -> (r: Result<GpioHandle, DriverError>)
        ensures
            r == mediated_result(old(self).spec_initialized(), old(self).spec_authorized(), task_id, operation_data@),
            final(self).spec_initialized() == old(self).spec_initialized(),
            final(self).spec_authorized() == old(self).spec_authorized(),
            final(self).spec_configs() == old(self).configs_after(task_id, operation_data@),
    {
        if !self.initialized {
            return Err(DriverError::NotInitialized);
        }
        if !self.check_access_permission(task_id) {
            return Err(DriverError::PermissionDenied);
        }
        let operation = match self.parse_operation(operation_data) {
            Ok(op) => op,
            Err(e) => {
                return Err(e);
            },
        };
        match operation {
            GpioOperation::Read => {
                if operation_data.len() >= 3 {
                    let port = operation_data[1];
                    let pin = operation_data[2];
                    match self.read_pin(port, pin) {
                        Ok(value) => Ok(GpioHandle::ReadResult(value)),
                        Err(e) => Err(e),
                    }
                } else {
                    Err(DriverError::InvalidParameter)
                }
            },
            GpioOperation::Write(value) => {
                if operation_data.len() >= 4 {
                    let port = operation_data[2];
                    let pin = operation_data[3];
                    match self.write_pin(port, pin, value) {
                        Ok(()) => Ok(GpioHandle::WriteSuccess),
                        Err(e) => Err(e),
                    }
                } else {
                    Err(DriverError::InvalidParameter)
                }
            },
            GpioOperation::Configure(config) => {
                match self.configure_pin(config) {
                    Ok(()) => Ok(GpioHandle::ConfigureSuccess),
                    Err(e) => Err(e),
                }
            },
            GpioOperation::Toggle => {
                if operation_data.len() >= 3 {
                    let port = operation_data[1];
                    let pin = operation_data[2];
                    match self.toggle_pin(port, pin) {
                        Ok(()) => Ok(GpioHandle::ToggleSuccess),
                        Err(e) => Err(e),
                    }
                } else {
                    Err(DriverError::InvalidParameter)
                }
            },
        }
    }
}

/// An operation by a task the driver has not authorized is refused, and
/// leaves the pin configurations as they were.
pub proof fn lemma_unauthorized_refused(g: GpioDriver, t: TaskId, d: Seq<u8>)
    requires
        g.spec_initialized(),
        !holds_task(g.spec_authorized(), t),
    ensures
        mediated_result(g.spec_initialized(), g.spec_authorized(), t, d) == Err::<GpioHandle, DriverError>(
            DriverError::PermissionDenied,
        ),
        g.configs_after(t, d) == g.spec_configs(),
{
}

/// Before the driver starts, every operation is refused and changes nothing.
pub proof fn lemma_uninitialized_refused(g: GpioDriver, t: TaskId, d: Seq<u8>)
    requires
        !g.spec_initialized(),
    ensures
        mediated_result(g.spec_initialized(), g.spec_authorized(), t, d) == Err::<GpioHandle, DriverError>(
            DriverError::NotInitialized,
        ),
        g.configs_after(t, d) == g.spec_configs(),
{
}

/// Start the GPIO driver.
pub fn init_gpio_driver(gpio: &mut GpioDriver) -> (r: Result<(), DriverError>)
    ensures
        old(gpio).spec_initialized() ==> r == Err::<(), DriverError>(DriverError::ConfigurationError)
            && *final(gpio) == *old(gpio),
        !old(gpio).spec_initialized() ==> r is Ok && final(gpio).spec_initialized()
            && final(gpio).spec_authorized() == old(gpio).spec_authorized()
            && final(gpio).spec_configs() == old(gpio).spec_configs(),
{
    gpio.init(())
}

/// A task's GPIO request, mediated by the driver.
pub fn gpio_syscall(gpio: &mut GpioDriver, task_id: TaskId, operation_data: &[u8]) -> (r: Result<GpioHandle, DriverError>)
    ensures
        r == mediated_result(old(gpio).spec_initialized(), old(gpio).spec_authorized(), task_id, operation_data@),
        final(gpio).spec_initialized() == old(gpio).spec_initialized(),
        final(gpio).spec_authorized() == old(gpio).spec_authorized(),
        final(gpio).spec_configs() == old(gpio).configs_after(task_id, operation_data@),
{
    gpio.mediated_operation(task_id, operation_data)
}

/// Authorize a task for the GPIO driver.
pub fn grant_gpio_access(gpio: &mut GpioDriver, task_id: TaskId) -> (r: Result<(), DriverError>)
    ensures
        final(gpio).spec_initialized() == old(gpio).spec_initialized(),
        final(gpio).spec_configs() == old(gpio).spec_configs(),
        r is Ok <==> old(gpio).spec_initialized() && has_empty(old(gpio).spec_authorized()),
        r is Ok ==> holds_task(final(gpio).spec_authorized(), task_id),
        r is Err ==> *final(gpio) == *old(gpio),
{
    let r = gpio.grant_access(task_id);
    proof {
        if r is Ok {
            let i = choose|i: int| is_first_empty(old(gpio).spec_authorized(), i)
                && gpio.spec_authorized() == old(gpio).spec_authorized().update(i, Some(task_id));
            assert(gpio.spec_authorized()[i] == Some(task_id));
        }
    }
    r
}

} // verus!
