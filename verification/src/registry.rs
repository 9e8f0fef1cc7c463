//! Application metadata and the registry that the linker-discovered apps fill.
use vstd::prelude::*;
use crate::MAX_APPS;

verus! {

/// Metadata of a statically registered application. Entry functions and
/// stack functions are carried by the addresses they stand at
/// (`entry_fn`) or report (`stack_ptr_fn`).
#[derive(Copy, Clone, Debug)]
pub struct AppMetadata {
    pub id: u32,
    pub name: &'static str,
    pub entry: usize,
    pub entry_fn: Option<usize>,
    pub stack_ptr: usize,
    pub stack_size: u32,
    pub stack_ptr_fn: Option<usize>,
}

impl AppMetadata {
    /// The placeholder that fills unused registry entries.
    pub fn empty() -> (r: Self)
        ensures
            r.id == 0,
            r.name@ == ""@,
            r.entry == 0,
            r.entry_fn is None,
            r.stack_ptr == 0,
            r.stack_size == 0,
            r.stack_ptr_fn is None,
    {
        proof { reveal_strlit(""); }
        Self { id: 0, name: "", entry: 0, entry_fn: None, stack_ptr: 0, stack_size: 0, stack_ptr_fn: None }
    }
}

} // verus!

verus! {

/// The entry addresses of the applications built into the image.
#[derive(Copy, Clone, Debug)]
pub struct AppEntryPoints {
    pub counter: usize,
    pub timer: usize,
    pub network_stack: usize,
    pub demo: usize,
    pub fibonacci: usize,
}

/// How many applications the image registers.
pub const BUILTIN_APPS: usize = 5;

/// The `i`-th application the image registers.
pub open spec fn builtin_app(e: AppEntryPoints, i: int) -> AppMetadata {
    if i == 0 {
        AppMetadata { id: 1, name: "counter", entry: e.counter, entry_fn: Some(e.counter), stack_ptr: 0, stack_size: 2048, stack_ptr_fn: None }
    } else if i == 1 {
        AppMetadata { id: 2, name: "timer", entry: e.timer, entry_fn: Some(e.timer), stack_ptr: 0, stack_size: 2048, stack_ptr_fn: None }
    } else if i == 2 {
        AppMetadata {
            id: 3,
            name: "network_stack",
            entry: e.network_stack,
            entry_fn: Some(e.network_stack),
            stack_ptr: 0,
            stack_size: 2048,
            stack_ptr_fn: None,
        }
    } else if i == 3 {
        AppMetadata { id: 4, name: "demo", entry: e.demo, entry_fn: Some(e.demo), stack_ptr: 0, stack_size: 2048, stack_ptr_fn: None }
    } else {
        AppMetadata {
            id: 5,
            name: "fibonacci",
            entry: e.fibonacci,
            entry_fn: Some(e.fibonacci),
            stack_ptr: 0,
            stack_size: 4096,
            stack_ptr_fn: None,
        }
    }
}

/// The table of built-in applications.
pub fn builtin_apps(e: AppEntryPoints) -> (r: Vec<AppMetadata>)
    ensures
        r.len() == BUILTIN_APPS,
        forall|i: int| 0 <= i < BUILTIN_APPS ==> r@[i] == builtin_app(e, i),
{
    let mut r: Vec<AppMetadata> = Vec::new();
    r.push(AppMetadata { id: 1, name: "counter", entry: e.counter, entry_fn: Some(e.counter), stack_ptr: 0, stack_size: 2048, stack_ptr_fn: None });
    r.push(AppMetadata { id: 2, name: "timer", entry: e.timer, entry_fn: Some(e.timer), stack_ptr: 0, stack_size: 2048, stack_ptr_fn: None });
    r.push(
        AppMetadata {
            id: 3,
            name: "network_stack",
            entry: e.network_stack,
            entry_fn: Some(e.network_stack),
            stack_ptr: 0,
            stack_size: 2048,
            stack_ptr_fn: None,
        },
    );
    r.push(AppMetadata { id: 4, name: "demo", entry: e.demo, entry_fn: Some(e.demo), stack_ptr: 0, stack_size: 2048, stack_ptr_fn: None });
    r.push(
        AppMetadata {
            id: 5,
            name: "fibonacci",
            entry: e.fibonacci,
            entry_fn: Some(e.fibonacci),
            stack_ptr: 0,
            stack_size: 4096,
            stack_ptr_fn: None,
        },
    );
    r
}

/// The registry of applications: sixteen entries, of which the first
/// `count` are registered, filled once on first use.
pub struct AppRegistry {
    apps: Vec<AppMetadata>,
    count: usize,
    ready: bool,
}

impl AppRegistry {
    /// The registered applications.
    pub closed spec fn registered(&self) -> Seq<AppMetadata> {
        self.apps@.subrange(0, self.count as int)
    }

    pub closed spec fn is_ready(&self) -> bool {
        self.ready
    }

    /// All sixteen entries, registered or not.
    pub closed spec fn entries(&self) -> Seq<AppMetadata> {
        self.apps@
    }

    /// How many entries are registered.
    pub closed spec fn count(&self) -> nat {
        self.count as nat
    }

    pub closed spec fn wf(&self) -> bool {
        &&& self.apps.len() == MAX_APPS
        &&& self.count <= MAX_APPS
    }

    /// An empty registry, not yet filled.
    pub fn new() -> (r: Self)
        ensures
            r.wf(),
            !r.is_ready(),
            r.registered() == Seq::<AppMetadata>::empty(),
    {
        let mut apps: Vec<AppMetadata> = Vec::new();
        let mut i: usize = 0;
        while i < MAX_APPS
            invariant
                0 <= i <= MAX_APPS,
                apps.len() == i,
            decreases MAX_APPS - i,
        {
            apps.push(AppMetadata::empty());
            i = i + 1;
        }
        let r = AppRegistry { apps, count: 0, ready: false };
        assert(r.registered() =~= Seq::<AppMetadata>::empty());
        r
    }

    /// Copy the built-in applications into the first entries, as many as fit,
    /// and return how many were copied.
    pub fn discover_linker_registered_apps(&mut self, e: AppEntryPoints) -> (n: usize)
        requires
            old(self).wf(),
        ensures
            final(self).wf(),
            n == BUILTIN_APPS,
            final(self).count() == old(self).count(),
            final(self).is_ready() == old(self).is_ready(),
            forall|i: int| 0 <= i < n ==> final(self).entries()[i] == builtin_app(e, i),
            forall|i: int| n <= i < MAX_APPS ==> final(self).entries()[i] == old(self).entries()[i],
    {
        let discovered = builtin_apps(e);
        let app_count = if discovered.len() < MAX_APPS { discovered.len() } else { MAX_APPS };
        let mut i: usize = 0;
        while i < app_count
            invariant
                0 <= i <= app_count,
                app_count == BUILTIN_APPS,
                discovered.len() == BUILTIN_APPS,
                forall|k: int| 0 <= k < BUILTIN_APPS ==> discovered@[k] == builtin_app(e, k),
                self.apps.len() == MAX_APPS,
                self.count == old(self).count,
                self.ready == old(self).ready,
                forall|k: int| 0 <= k < i ==> self.apps@[k] == builtin_app(e, k),
                forall|k: int| BUILTIN_APPS <= k < MAX_APPS ==> self.apps@[k] == old(self).apps@[k],
            decreases app_count - i,
        {
            self.apps.set(i, discovered[i]);
            i = i + 1;
        }
        app_count
    }

    /// Fill the registry from the built-in applications.
    fn populate_registry_from_linker(&mut self, e: AppEntryPoints)
        requires
            old(self).wf(),
        ensures
            final(self).wf(),
            final(self).ready == old(self).ready,
            final(self).registered() == Seq::new(BUILTIN_APPS as nat, |i: int| builtin_app(e, i)),
    {
        let app_count = self.discover_linker_registered_apps(e);
        self.count = app_count;
        assert(self.registered() =~= Seq::new(BUILTIN_APPS as nat, |i: int| builtin_app(e, i)));
    }

    /// Fill the registry on first use; later calls leave it as it is.
    pub fn initialize_app_registry(&mut self, e: AppEntryPoints)
        requires
            old(self).wf(),
        ensures
            final(self).wf(),
            final(self).is_ready(),
            old(self).is_ready() ==> *final(self) == *old(self),
            !old(self).is_ready() ==> final(self).registered() == Seq::new(
                BUILTIN_APPS as nat,
                |i: int| builtin_app(e, i),
            ),
    {
        if self.ready {
            return ;
        }
        self.populate_registry_from_linker(e);
        self.ready = true;
    }

    /// The registered applications, filling the registry first if needed.
    pub fn get_registered_apps(&mut self, e: AppEntryPoints) -> (r: Vec<AppMetadata>)
        requires
            old(self).wf(),
        ensures
            final(self).wf(),
            final(self).is_ready(),
            r@ == final(self).registered(),
            old(self).is_ready() ==> *final(self) == *old(self),
            !old(self).is_ready() ==> r@ == Seq::new(BUILTIN_APPS as nat, |i: int| builtin_app(e, i)),
    {
        self.initialize_app_registry(e);
        let mut r: Vec<AppMetadata> = Vec::new();
        let mut i: usize = 0;
        while i < self.count
            invariant
                self.wf(),
                0 <= i <= self.count,
                r@ == self.apps@.subrange(0, i as int),
            decreases self.count - i,
        {
            r.push(self.apps[i]);
            i = i + 1;
            assert(r@ =~= self.apps@.subrange(0, i as int));
        }
        r
    }
}

} // verus!
