//! Options for building a runtime.

use crate::driver::Backend;
use vstd::prelude::*;

verus! {

/// How many entries the ring has by default.
pub const DEFAULT_RING_ENTRIES: u32 = 4096;

/// How many tasks are run in a row by default.
pub const DEFAULT_BATCH_SIZE: usize = 256;

/// Which driver a runtime has. `B` is the configuration of a ring.
pub enum DriverKind<B> {
    Mio,
    Iocp,
    Mock,
    IoUring,
    IoUringEntries(u32),
    IoUringCustom(B),
    IoUringCustomEntries(u32, B),
}

/// The driver of a kind.
pub open spec fn backend_of<B>(kind: DriverKind<B>) -> Backend {
    match kind {
        DriverKind::Mio => Backend::Mio,
        DriverKind::Iocp => Backend::Iocp,
        DriverKind::Mock => Backend::Mock,
        _ => Backend::IoUring,
    }
}

impl<B> DriverKind<B> {
    /// The driver of this kind.
    pub fn backend(&self) -> (backend: Backend)
        ensures
            backend == backend_of(*self),
            backend is Mio <==> self is Mio,
            backend is Iocp <==> self is Iocp,
            backend is Mock <==> self is Mock,
    {
        match self {
            DriverKind::Mio => Backend::Mio,
            DriverKind::Iocp => Backend::Iocp,
            DriverKind::Mock => Backend::Mock,
            _ => Backend::IoUring,
        }
    }
}

/// How a driver is set up.
pub enum DriverPlan<B> {
    Mio,
    Iocp,
    Mock,
    /// A ring with this many entries, and with the configuration given, or else with one that
    /// newer kernels know, and without it where that fails.
    Ring(u32, Option<B>),
    /// The best one that can be set up.
    Best,
}

/// How the driver of a kind is set up.
pub open spec fn plan_of<B>(kind: Option<DriverKind<B>>) -> DriverPlan<B> {
    match kind {
        None => DriverPlan::Best,
        Some(DriverKind::Mio) => DriverPlan::Mio,
        Some(DriverKind::Iocp) => DriverPlan::Iocp,
        Some(DriverKind::Mock) => DriverPlan::Mock,
        Some(DriverKind::IoUring) => DriverPlan::Ring(DEFAULT_RING_ENTRIES, None),
        Some(DriverKind::IoUringEntries(entries)) => DriverPlan::Ring(entries, None),
        Some(DriverKind::IoUringCustom(builder)) => DriverPlan::Ring(
            DEFAULT_RING_ENTRIES,
            Some(builder),
        ),
        Some(DriverKind::IoUringCustomEntries(entries, builder)) => DriverPlan::Ring(
            entries,
            Some(builder),
        ),
    }
}

/// Which driver to try next when the best one is wanted.
#[derive(Debug, Clone, Copy, PartialEq, Eq, Structural)]
pub enum BestStep {
    /// A ring with the configuration that newer kernels know.
    RingWithFlags,
    /// A ring without it.
    PlainRing,
    /// The readiness driver.
    Mio,
    /// None is left.
    Nothing,
}

/// Which driver to try after another one could not be set up.
pub fn after_failure(step: BestStep) -> (next: BestStep)
    ensures
        next == match step {
            BestStep::RingWithFlags => BestStep::PlainRing,
            BestStep::PlainRing => BestStep::Mio,
            BestStep::Mio => BestStep::Nothing,
            BestStep::Nothing => BestStep::Nothing,
        },
{
    match step {
        BestStep::RingWithFlags => BestStep::PlainRing,
        BestStep::PlainRing => BestStep::Mio,
        BestStep::Mio => BestStep::Nothing,
        BestStep::Nothing => BestStep::Nothing,
    }
}

/// The blocking thread pool a runtime is built with.
pub enum BlockingPool<P> {
    /// One that was given.
    Custom(P),
    /// The default one, with this many threads at most.
    Default(usize),
}

/// Options for building a runtime. `P` is a blocking thread pool.
pub struct RuntimeBuilder<B, P> {
    pub driver_kind: Option<DriverKind<B>>,
    pub enable_timer: bool,
    pub enable_fs_offload: bool,
    pub blocking_pool: Option<BlockingPool<P>>,
    pub batch_size: usize,
}

impl<B, P> RuntimeBuilder<B, P> {
    /// The best driver, and everything else off.
    #[must_use]
    pub fn new() -> (builder: Self)
        ensures
            builder.driver_kind is None,
            !builder.enable_timer,
            !builder.enable_fs_offload,
            builder.blocking_pool is None,
            builder.batch_size == DEFAULT_BATCH_SIZE,
    {
        RuntimeBuilder {
            driver_kind: None,
            enable_timer: false,
            enable_fs_offload: false,
            blocking_pool: None,
            batch_size: DEFAULT_BATCH_SIZE,
        }
    }

    /// Sets the driver.
    #[must_use]
    pub fn driver(self, driver_kind: DriverKind<B>) -> (builder: Self)
        ensures
            builder == (RuntimeBuilder { driver_kind: Some(driver_kind), ..self }),
    {
        RuntimeBuilder { driver_kind: Some(driver_kind), ..self }
    }

    /// Sets whether there is a timer.
    #[must_use]
    pub fn enable_timer(self, enable: bool) -> (builder: Self)
        ensures
            builder == (RuntimeBuilder { enable_timer: enable, ..self }),
    {
        RuntimeBuilder { enable_timer: enable, ..self }
    }

    /// Sets whether file operations go to the blocking thread pool.
    #[must_use]
    pub fn enable_fs_offload(self, enable: bool) -> (builder: Self)
        ensures
            builder == (RuntimeBuilder { enable_fs_offload: enable, ..self }),
    {
        RuntimeBuilder { enable_fs_offload: enable, ..self }
    }

    /// Sets the blocking thread pool.
    #[must_use]
    pub fn blocking_pool(self, pool: P) -> (builder: Self)
        ensures
            builder == (RuntimeBuilder { blocking_pool: Some(BlockingPool::Custom(pool)), ..self }),
    {
        RuntimeBuilder { blocking_pool: Some(BlockingPool::Custom(pool)), ..self }
    }

    /// Sets the default blocking thread pool, with this many threads at most.
    #[must_use]
    pub fn default_blocking_pool(self, max_threads: usize) -> (builder: Self)
        ensures
            builder == (RuntimeBuilder {
                blocking_pool: Some(BlockingPool::Default(max_threads)),
                ..self
            }),
    {
        RuntimeBuilder { blocking_pool: Some(BlockingPool::Default(max_threads)), ..self }
    }

    /// Sets how many tasks are run in a row.
    #[must_use]
    pub fn batch_size(self, batch_size: usize) -> (builder: Self)
        ensures
            builder == (RuntimeBuilder { batch_size, ..self }),
    {
        RuntimeBuilder { batch_size, ..self }
    }

    /// Takes the configuration of the ring out, if one was given, to be changed and set again. One
    /// that came with a number of entries is not taken up.
    #[must_use]
    pub fn take_uring(self) -> (r: (Self, Option<B>))
        ensures
            r.0 == (RuntimeBuilder { driver_kind: None::<DriverKind<B>>, ..self }),
            r.1 == match self.driver_kind {
                Some(DriverKind::IoUringCustom(builder)) => Some(builder),
                _ => None,
            },
    {
        let RuntimeBuilder {
            driver_kind,
            enable_timer,
            enable_fs_offload,
            blocking_pool,
            batch_size,
        } = self;
        let taken = match driver_kind {
            Some(DriverKind::IoUringCustom(builder)) => Some(builder),
            _ => None,
        };
        (
            RuntimeBuilder {
                driver_kind: None,
                enable_timer,
                enable_fs_offload,
                blocking_pool,
                batch_size,
            },
            taken,
        )
    }

    /// Sets the configuration of the ring.
    #[must_use]
    pub fn uring(self, builder: B) -> (r: Self)
        ensures
            r == (RuntimeBuilder {
                driver_kind: Some(DriverKind::IoUringCustom(builder)),
                ..self
            }),
    {
        RuntimeBuilder { driver_kind: Some(DriverKind::IoUringCustom(builder)), ..self }
    }

    /// How the driver is set up.
    pub fn into_plan(self) -> (plan: DriverPlan<B>)
        ensures
            plan == plan_of(self.driver_kind),
            plan is Best <==> self.driver_kind is None,
    {
        match self.driver_kind {
            None => DriverPlan::Best,
            Some(DriverKind::Mio) => DriverPlan::Mio,
            Some(DriverKind::Iocp) => DriverPlan::Iocp,
            Some(DriverKind::Mock) => DriverPlan::Mock,
            Some(DriverKind::IoUring) => DriverPlan::Ring(DEFAULT_RING_ENTRIES, None),
            Some(DriverKind::IoUringEntries(entries)) => DriverPlan::Ring(entries, None),
            Some(DriverKind::IoUringCustom(builder)) => DriverPlan::Ring(
                DEFAULT_RING_ENTRIES,
                Some(builder),
            ),
            Some(DriverKind::IoUringCustomEntries(entries, builder)) => DriverPlan::Ring(
                entries,
                Some(builder),
            ),
        }
    }
}

/// The driver that is set up is the one that was asked for, with the entries and the configuration
/// that were given; the best one is looked for only where none was asked for.
pub proof fn law_the_driver_asked_for_is_set_up<B>(kind: Option<DriverKind<B>>)
    ensures
        plan_of(kind) is Best <==> kind is None,
        kind matches Some(k) ==> {
            &&& plan_of(kind) is Mio <==> k is Mio
            &&& plan_of(kind) is Mio <==> backend_of(k) is Mio
            &&& plan_of(kind) is Iocp <==> k is Iocp
            &&& plan_of(kind) is Iocp <==> backend_of(k) is Iocp
            &&& plan_of(kind) is Mock <==> k is Mock
            &&& plan_of(kind) is Mock <==> backend_of(k) is Mock
            &&& plan_of(kind) is Ring <==> backend_of(k) is IoUring
            &&& k is IoUring ==> plan_of(kind) == DriverPlan::<B>::Ring(4096, None)
            &&& k matches DriverKind::IoUringEntries(entries) ==> plan_of(kind) == DriverPlan::<
                B,
            >::Ring(entries, None)
            &&& k matches DriverKind::IoUringCustom(given) ==> plan_of(kind) == DriverPlan::Ring(
                4096,
                Some(given),
            )
            &&& k matches DriverKind::IoUringCustomEntries(entries, given) ==> plan_of(kind)
                == DriverPlan::Ring(entries, Some(given))
        },
{
}

} // verus!
