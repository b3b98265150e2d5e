//! Device metadata and timing capabilities for the high-level control
//! facade, plus its error taxonomy.

use vstd::prelude::*;
use crate::protocol::stream::TimeoutPredicate;

verus! {

/// Where a register's value lives on the device.
#[derive(Debug, Clone, Copy)]
pub enum RegisterStorage {
    /// Persistent storage.
    Eeprom,
    /// Volatile storage.
    Ram,
}

/// One addressable register of a device: its address, storage class,
/// permissions, default value and a short description.
#[derive(Debug, Clone, Copy)]
pub struct RegisterDefinition {
    pub address: u8,
    pub storage: RegisterStorage,
    pub readable: bool,
    pub writable: bool,
    pub default: Option<u8>,
    pub description: &'static str,
}

impl RegisterDefinition {
    pub fn new(
        address: u8,
        storage: RegisterStorage,
        readable: bool,
        writable: bool,
        default: Option<u8>,
        description: &'static str,
    ) -> (r: Self)
        ensures
            r.address == address,
            r.storage == storage,
            r.readable == readable,
            r.writable == writable,
            r.default == default,
            r.description == description,
    {
        Self { address, storage, readable, writable, default, description }
    }
}

/// A point in time, as a capability the integration supplies; the
/// engine only ever asks how long ago it was taken.
pub trait Instant {
    /// Milliseconds elapsed since this instant was taken.
    fn elapsed(&self) -> u64;
}

/// A clock capability: hands out instants.
pub trait Timer {
    type Instant: Instant;

    fn now() -> Self::Instant;
}

/// The failure taxonomy of the control facade.
#[derive(Debug)]
pub enum Error<P> {
    /// The underlying exchange failed.
    ProtocolError(P),
    /// An argument was out of the device's range.
    InvalidArgument,
    /// A cached reading was asked for before any update.
    NotUpdated,
}

/// A timeout predicate that reports expiry once `limit_ms` milliseconds
/// have elapsed since `start` — with a generous poll countdown beside
/// the deadline, which is what bounds the retry loops.
pub struct ElapsedTimeout<I: Instant> {
    start: I,
    limit_ms: u64,
    polls_remaining: u64,
}

impl<I: Instant> ElapsedTimeout<I> {
    pub fn new(start: I, limit_ms: u64) -> (r: Self)
        ensures
            r.budget() == u64::MAX,
    {
        Self { start, limit_ms, polls_remaining: u64::MAX }
    }
}

impl<I: Instant> TimeoutPredicate for ElapsedTimeout<I> {
    closed spec fn budget(&self) -> nat {
        self.polls_remaining as nat
    }

    fn expired(&mut self) -> (b: bool)
        ensures
            !b ==> final(self).budget() < old(self).budget(),
    {
        if self.polls_remaining == 0 {
            true
        } else {
            self.polls_remaining = self.polls_remaining - 1;
            self.start.elapsed() >= self.limit_ms
        }
    }
}

} // verus!

pub mod scs0009;
