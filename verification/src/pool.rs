//! The set of backends that connections are relayed to.

use vstd::prelude::*;

verus! {

/// Why the pool has no backend to offer.
#[derive(Clone, Copy, Debug, PartialEq, Eq, Structural)]
pub enum PoolError {
    /// A pool cannot be made of no addresses.
    Configuration,
    /// No backend is left to hand out.
    Exhausted,
}

/// A pool as contracts see it.
pub struct PoolView {
    /// The backends, in the order they were given.
    pub addresses: Seq<String>,
    /// Where the next backend is taken from.
    pub cursor: usize,
}

impl PoolView {
    /// The position of the backend that is handed out next.
    pub open spec fn turn(self) -> int
        recommends
            self.addresses.len() > 0,
    {
        self.cursor as int % self.addresses.len() as int
    }
}

/// Hands out backend addresses, each in its turn.
pub struct Pool {
    addresses: Vec<String>,
    cursor: usize,
}

impl View for Pool {
    type V = PoolView;

    closed spec fn view(&self) -> PoolView {
        PoolView { addresses: self.addresses@, cursor: self.cursor }
    }
}

impl Pool {
    /// Makes a pool of the given backends; there must be at least one.
    pub fn new(addresses: Vec<String>) -> (r: Result<Pool, PoolError>)
        ensures
            addresses@.len() == 0 ==> r == Err::<Pool, PoolError>(PoolError::Configuration),
            addresses@.len() > 0 ==> (r matches Ok(pool) && pool@ == (PoolView {
                addresses: addresses@,
                cursor: 0,
            })),
    {
        if addresses.len() == 0 {
            Err(PoolError::Configuration)
        } else {
            Ok(Pool { addresses: addresses, cursor: 0 })
        }
    }

    /// The address of the backend whose turn it is. The turn then passes to
    /// the next backend, and after the last to the first again.
    pub fn acquire(&mut self) -> (r: Result<String, PoolError>)
        ensures
            final(self)@.addresses == old(self)@.addresses,
            old(self)@.addresses.len() == 0 ==> r == Err::<String, PoolError>(PoolError::Exhausted)
                && final(self)@ == old(self)@,
            old(self)@.addresses.len() > 0 ==> (r matches Ok(address)
                && address@ == old(self)@.addresses[old(self)@.turn()]@
                && final(self)@.cursor == (old(self)@.turn() + 1) % old(self)@.addresses.len() as int),
    {
        let n: usize = self.addresses.len();
        if n == 0 {
            return Err(PoolError::Exhausted);
        }
        let turn: usize = self.cursor % n;
        let address = self.addresses[turn].clone();
        self.cursor = (turn + 1) % n;
        Ok(address)
    }
}

} // verus!
