//! Bounded connection pooling with admission accounting.
//!
//! [`ConnectionPool`] is the decision core of a pool of reusable store
//! connections. It owns the idle set and the admission count, and every
//! transition — taking a slot, returning a connection, releasing a slot,
//! draining — is a total function with a contract. The blocking itself
//! (suspending a task until a slot frees) and the opening of a fresh
//! connection are I/O that a driver performs around this core: [`get`]
//! reports [`GetOutcome::Exhausted`] instead of suspending, and
//! [`GetOutcome::MustOpen`] instead of dialing.
//!
//! [`get`]: ConnectionPool::get

use crate::error::VectorStoreError;
use vstd::prelude::*;

verus! {

/// Validated parameters of a [`ConnectionPool`].
///
/// All durations are in whole seconds. A configuration is accepted iff
/// `max_size > 0`, `min_idle <= max_size` and `timeout > 0`.
#[derive(Debug, Clone)]
pub struct PoolConfig {
    /// Upper bound on concurrently checked-out connections.
    pub max_size: usize,
    /// Number of idle connections the pool aims to retain.
    pub min_idle: usize,
    /// How long an acquisition may wait for a free slot, in seconds.
    pub timeout: u64,
    /// How long a connection may live before it is retired, in seconds.
    pub max_lifetime: u64,
    /// How long an idle connection is retained, in seconds.
    pub idle_timeout: u64,
}

impl PoolConfig {
    /// The pool-configuration invariant.
    pub open spec fn valid(&self) -> bool {
        &&& self.max_size > 0
        &&& self.min_idle <= self.max_size
        &&& self.timeout > 0
    }

    /// Checks the invariants in a fixed order and returns the first violation.
    pub fn validate(&self) -> (r: Result<(), VectorStoreError>)
        ensures
            r is Ok <==> self.valid(),
            self.max_size == 0 ==> (r matches Err(VectorStoreError::InvalidConfigurationError(m))
                && m@ == "Max pool size must be greater than 0"@),
            self.max_size > 0 && self.min_idle > self.max_size ==> (r matches Err(
                VectorStoreError::InvalidConfigurationError(m),
            ) && m@ == "Minimum idle connections cannot exceed max pool size"@),
            self.max_size > 0 && self.min_idle <= self.max_size && self.timeout == 0 ==> (r matches
                Err(VectorStoreError::InvalidConfigurationError(m)) && m@
                == "Timeout must be greater than 0"@),
    {
        if self.max_size == 0 {
            return Err(
                VectorStoreError::InvalidConfigurationError(
                    "Max pool size must be greater than 0".to_owned(),
                ),
            );
        }
        if self.min_idle > self.max_size {
            return Err(
                VectorStoreError::InvalidConfigurationError(
                    "Minimum idle connections cannot exceed max pool size".to_owned(),
                ),
            );
        }
        if self.timeout == 0 {
            return Err(
                VectorStoreError::InvalidConfigurationError(
                    "Timeout must be greater than 0".to_owned(),
                ),
            );
        }
        Ok(())
    }
}

/// A handle to one pooled connection.
///
/// The engine identifies connections by number; the driver maps each number
/// to the transport object it opened.
#[derive(Debug, Clone, Copy, PartialEq, Eq, Structural)]
pub struct Connection {
    /// The pool-assigned identity of this connection.
    pub id: u64,
}

/// What a call to [`ConnectionPool::get`] decided.
#[derive(Debug)]
pub enum GetOutcome {
    /// An admission slot was taken and an idle connection was handed out.
    Reused(Connection),
    /// An admission slot was taken but the idle set was empty: the caller
    /// must open a fresh connection against the configured endpoint, and
    /// call [`ConnectionPool::fail_open`] if that fails.
    MustOpen(Connection),
    /// All `max_size` slots are in use. The caller must wait until another
    /// caller releases a slot, then ask again.
    Exhausted,
}

/// The decision core of a bounded pool of store connections.
///
/// At most `config.max_size` connections are checked out at any time; the
/// pool exclusively owns idle connections, and a checked-out connection is
/// owned by its caller until returned.
pub struct ConnectionPool {
    config: PoolConfig,
    available: usize,
    idle: Vec<Connection>,
    next_id: u64,
}

impl ConnectionPool {
    /// Well-formedness: the configuration is valid, free slots never exceed
    /// `max_size`, and the idle set is bounded by `max_size`.
    pub closed spec fn wf(&self) -> bool {
        &&& self.config.valid()
        &&& self.available <= self.config.max_size
        &&& self.idle@.len() <= self.config.max_size
    }

    /// The configuration the pool was created with.
    pub closed spec fn spec_config(&self) -> PoolConfig {
        self.config
    }

    /// The number of free admission slots.
    pub closed spec fn spec_available(&self) -> usize {
        self.available
    }

    /// The idle connections, oldest first.
    pub closed spec fn spec_idle(&self) -> Seq<Connection> {
        self.idle@
    }

    /// The number of connections currently checked out.
    pub open spec fn spec_checked_out(&self) -> int {
        self.spec_config().max_size - self.spec_available()
    }

    /// Whether a call to [`get`](Self::get) finds every slot in use and
    /// therefore makes the caller wait.
    pub open spec fn get_blocks(&self) -> bool {
        self.spec_available() == 0
    }

    /// The pool after one admission slot is taken.
    pub closed spec fn after_admit(&self) -> ConnectionPool {
        (ConnectionPool { available: (self.available - 1) as usize, ..*self })
    }

    /// The pool after one admission slot is released.
    pub closed spec fn after_release(&self) -> ConnectionPool {
        if self.available < self.config.max_size {
            (ConnectionPool { available: (self.available + 1) as usize, ..*self })
        } else {
            *self
        }
    }

    /// Creates an empty pool, validating the configuration first.
    ///
    /// Succeeds iff the configuration is valid; on success all `max_size`
    /// slots are free and the idle set is empty.
    pub fn new(config: PoolConfig) -> (r: Result<ConnectionPool, VectorStoreError>)
        ensures
            r is Ok <==> config.valid(),
            r matches Ok(p) ==> {
                &&& p.wf()
                &&& p.spec_config() == config
                &&& p.spec_available() == config.max_size
                &&& p.spec_idle().len() == 0
            },
            !config.valid() ==> (r matches Err(VectorStoreError::InvalidConfigurationError(_))),
    {
        config.validate()?;
        Ok(ConnectionPool { available: config.max_size, config, idle: Vec::new(), next_id: 0 })
    }

    /// Takes one admission slot if any is free.
    ///
    /// With a free slot it hands out the most recently returned idle
    /// connection, or a fresh handle that the caller must open. With none it
    /// reports [`GetOutcome::Exhausted`] and changes nothing: the caller
    /// waits, never overcommitting the pool.
    pub fn get(&mut self) -> (r: GetOutcome)
        requires
            old(self).wf(),
        ensures
            final(self).wf(),
            final(self).spec_config() == old(self).spec_config(),
            r is Exhausted <==> old(self).get_blocks(),
            old(self).get_blocks() ==> *final(self) == *old(self),
            !old(self).get_blocks() ==> {
                &&& final(self).spec_available() == old(self).after_admit().spec_available()
                &&& if old(self).spec_idle().len() > 0 {
                    &&& r matches GetOutcome::Reused(c) && c == old(self).spec_idle().last()
                    &&& final(self).spec_idle() == old(self).spec_idle().drop_last()
                } else {
                    &&& r is MustOpen
                    &&& final(self).spec_idle() == old(self).spec_idle()
                }
            },
    {
        if self.available == 0 {
            return GetOutcome::Exhausted;
        }
        self.available = self.available - 1;
        if let Some(conn) = self.idle.pop() {
            GetOutcome::Reused(conn)
        } else {
            let id = self.next_id;
            if self.next_id < u64::MAX {
                self.next_id = self.next_id + 1;
            }
            GetOutcome::MustOpen(Connection { id })
        }
    }

    /// Returns a slot after opening a fresh connection failed.
    ///
    /// The typed error from the failed open propagates to the caller of
    /// [`get`](Self::get); the slot itself must not leak, so the driver calls
    /// this exactly when it drops that error.
    pub fn fail_open(&mut self)
        requires
            old(self).wf(),
        ensures
            final(self).wf(),
            *final(self) == old(self).after_release(),
    {
        self.release();
    }

    /// Returns a connection to the idle set.
    ///
    /// Does not release the admission slot: that happens when the caller that
    /// took the slot drops it, via [`release`](Self::release). A connection
    /// returned to a pool whose idle set is already full is discarded.
    pub fn put(&mut self, conn: Connection)
        requires
            old(self).wf(),
        ensures
            final(self).wf(),
            final(self).spec_config() == old(self).spec_config(),
            final(self).spec_available() == old(self).spec_available(),
            old(self).spec_idle().len() < old(self).spec_config().max_size ==> final(self)
                .spec_idle() == old(self).spec_idle().push(conn),
            old(self).spec_idle().len() >= old(self).spec_config().max_size ==> final(self)
                .spec_idle() == old(self).spec_idle(),
    {
        if self.idle.len() < self.config.max_size {
            self.idle.push(conn);
        }
    }

    /// Releases one admission slot, waking at most one waiting caller.
    ///
    /// Releasing when every slot is already free changes nothing.
    pub fn release(&mut self)
        requires
            old(self).wf(),
        ensures
            final(self).wf(),
            *final(self) == old(self).after_release(),
    {
        if self.available < self.config.max_size {
            self.available = self.available + 1;
        }
    }

    /// Drains the idle set. Checked-out connections are unaffected.
    pub fn close(&mut self)
        requires
            old(self).wf(),
        ensures
            final(self).wf(),
            final(self).spec_config() == old(self).spec_config(),
            final(self).spec_available() == old(self).spec_available(),
            final(self).spec_idle().len() == 0,
    {
        self.idle.clear();
    }

    /// Reports the number of free admission slots — not the number of idle
    /// connections; callers must not conflate the two.
    pub fn size(&self) -> (r: usize)
        ensures
            r == self.spec_available(),
    {
        self.available
    }
}

/// Admission bound: a well-formed pool never has more than `max_size`
/// connections checked out. Once every slot is taken, a further `get` blocks;
/// one release frees exactly one slot, so exactly one blocked caller can
/// proceed, after which the pool blocks again.
pub proof fn lemma_admission_bound(p: ConnectionPool)
    requires
        p.wf(),
    ensures
        0 <= p.spec_checked_out() <= p.spec_config().max_size,
        p.spec_available() == 0 ==> p.get_blocks(),
        p.spec_available() == 0 ==> !p.after_release().get_blocks(),
        p.spec_available() == 0 ==> p.after_release().after_admit().get_blocks(),
{
}

/// Slot accounting, in general: taking a slot on a pool that has one lowers
/// the free count by exactly one, a release raises it by exactly one until
/// every slot is free again, and neither transition touches the
/// configuration or the idle set.
pub proof fn lemma_slot_accounting(p: ConnectionPool)
    requires
        p.wf(),
    ensures
        p.spec_available() > 0 ==> {
            &&& p.after_admit().spec_available() == p.spec_available() - 1
            &&& p.after_admit().spec_config() == p.spec_config()
            &&& p.after_admit().spec_idle() == p.spec_idle()
        },
        p.spec_available() < p.spec_config().max_size ==> {
            &&& p.after_release().spec_available() == p.spec_available() + 1
            &&& p.after_release().spec_config() == p.spec_config()
            &&& p.after_release().spec_idle() == p.spec_idle()
        },
        p.spec_available() == p.spec_config().max_size ==> p.after_release() == p,
{
}

} // verus!
