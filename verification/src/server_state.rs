//! The state that every connection and the maintenance task share: the
//! content cache, the token registry and the running flag.
//!
//! The container is written for one owner. Whoever shares it between tasks
//! guards it with a lock and holds that lock for one call at a time; no call
//! here waits, reads a file or touches the network.

use crate::assoc::{has_key, value_of, without_key};
use crate::cache::{stored, touched, ContentCache, MAX_LRU_CAPACITY};
use crate::error::ServerError;
use crate::registry::{issued, lists, pruned, TokenRegistry};
use std::sync::Arc;
use vstd::prelude::*;

verus! {

/// What woke the maintenance task.
#[derive(Clone, Copy, Debug, PartialEq, Eq, Structural)]
pub enum MaintenanceWake {
    /// The interval has elapsed; the time is `now`, in seconds.
    Tick { now: u64 },
    /// The shutdown notification has arrived.
    Shutdown,
}

/// What the maintenance task does after a wake-up.
#[derive(Clone, Copy, Debug, PartialEq, Eq, Structural)]
pub enum MaintenanceStep {
    /// Wait for the next wake-up.
    Continue,
    /// Leave the loop.
    Exit,
}

/// The shared state of the server.
pub struct ServerState {
    lru: ContentCache,
    states: TokenRegistry,
    running: bool,
}

impl ServerState {
    /// The content cache of this state.
    pub closed spec fn lru(&self) -> ContentCache {
        self.lru
    }

    /// The token registry of this state.
    pub closed spec fn states(&self) -> TokenRegistry {
        self.states
    }

    /// The cached keys with their bytes, from the least recently used entry
    /// to the most recently used one.
    pub open spec fn cache(&self) -> Seq<(Seq<char>, Seq<u8>)> {
        self.lru()@
    }

    /// The registered tokens with their time stamps, in insertion order.
    pub open spec fn tokens(&self) -> Seq<(Seq<char>, u64)> {
        self.states()@
    }

    /// Whether shutdown has not been signalled yet.
    pub closed spec fn running(&self) -> bool {
        self.running
    }

    /// This state with shutdown signalled: the same cache and tokens, and
    /// not running.
    pub closed spec fn stopped(self) -> ServerState {
        ServerState { lru: self.lru, states: self.states, running: false }
    }

    /// Both containers are well formed: no key is cached twice, the cache
    /// keeps within its capacity, and no token is registered twice.
    pub open spec fn wf(&self) -> bool {
        self.lru().wf() && self.states().wf()
    }

    /// A running server with an empty cache and no tokens.
    pub fn new() -> (state: Self)
        ensures
            state.wf(),
            state.running(),
            state.cache() == Seq::<(Seq<char>, Seq<u8>)>::empty(),
            state.tokens() == Seq::<(Seq<char>, u64)>::empty(),
    {
        ServerState { lru: ContentCache::new(), states: TokenRegistry::new(), running: true }
    }

    /// Whether shutdown has not been signalled yet.
    pub fn is_running(&self) -> (running: bool)
        ensures
            running == self.running(),
    {
        self.running
    }

    /// Checks and consumes the token `state`: true exactly if it was
    /// registered. Afterwards it is not registered any more.
    pub fn check_state(&mut self, state: &str) -> (present: bool)
        requires
            old(self).wf(),
        ensures
            final(self).wf(),
            present == has_key(old(self).tokens(), state@),
            final(self).tokens() == without_key(old(self).tokens(), state@),
            !has_key(final(self).tokens(), state@),
            final(self).lru() == old(self).lru(),
            final(self).running() == old(self).running(),
    {
        self.states.check(state)
    }

    /// Looks `path` up in the cache. A hit returns a handle to the cached
    /// bytes and makes the entry the most recently used one. On a miss the
    /// cache is unchanged: the caller loads the resource and hands the
    /// outcome to `cache_loaded`.
    pub fn get_from_cache(&mut self, path: &str) -> (found: Option<Arc<Vec<u8>>>)
        requires
            old(self).wf(),
        ensures
            final(self).wf(),
            final(self).cache() == touched(old(self).cache(), path@),
            match found {
                Some(bytes) => value_of(old(self).cache(), path@) == Some(bytes@),
                None => {
                    &&& !has_key(old(self).cache(), path@)
                    &&& final(self).cache() == old(self).cache()
                },
            },
            final(self).states() == old(self).states(),
            final(self).running() == old(self).running(),
    {
        self.lru.get(path)
    }

    /// Takes the outcome of loading `path` after a miss. Bytes that were
    /// loaded are cached as the most recently used entry, over whatever
    /// another load has cached under `path` meanwhile, and a handle to them
    /// is returned. A failure is handed back and nothing is cached.
    pub fn cache_loaded(&mut self, path: &str, loaded: Result<Vec<u8>, ServerError>) -> (outcome:
        Result<Arc<Vec<u8>>, ServerError>)
        requires
            old(self).wf(),
        ensures
            final(self).wf(),
            match loaded {
                Ok(bytes) => {
                    &&& outcome matches Ok(handle)
                    &&& handle@ == bytes@
                    &&& final(self).cache() == stored(
                        old(self).cache(),
                        MAX_LRU_CAPACITY as nat,
                        path@,
                        bytes@,
                    )
                    &&& value_of(final(self).cache(), path@) == Some(bytes@)
                },
                Err(failure) => {
                    &&& outcome == Err::<Arc<Vec<u8>>, ServerError>(failure)
                    &&& *final(self) == *old(self)
                },
            },
            final(self).states() == old(self).states(),
            final(self).running() == old(self).running(),
    {
        match loaded {
            Ok(bytes) => Ok(self.lru.insert_loaded(path, bytes)),
            Err(failure) => Err(failure),
        }
    }

    /// Caches `value` under `key` as the most recently used entry, evicting
    /// the least recently used one if `key` is new and the cache is full.
    pub fn put_in_cache(&mut self, key: &str, value: Arc<Vec<u8>>)
        requires
            old(self).wf(),
        ensures
            final(self).wf(),
            final(self).cache() == stored(
                old(self).cache(),
                MAX_LRU_CAPACITY as nat,
                key@,
                value@,
            ),
            value_of(final(self).cache(), key@) == Some(value@),
            final(self).states() == old(self).states(),
            final(self).running() == old(self).running(),
    {
        self.lru.put(key, value)
    }

    /// Registers the token `state` at time `now`.
    pub fn add_state(&mut self, state: &str, now: u64)
        requires
            old(self).wf(),
        ensures
            final(self).wf(),
            final(self).tokens() == issued(old(self).tokens(), state@, now),
            value_of(final(self).tokens(), state@) == Some(now),
            final(self).lru() == old(self).lru(),
            final(self).running() == old(self).running(),
    {
        self.states.add(state, now)
    }

    /// Drops the tokens that have expired at time `now`.
    pub fn clean_states(&mut self, now: u64)
        requires
            old(self).wf(),
        ensures
            final(self).wf(),
            final(self).tokens() == pruned(old(self).tokens(), now),
            final(self).lru() == old(self).lru(),
            final(self).running() == old(self).running(),
    {
        self.states.prune(now)
    }

    /// Signals shutdown: the server is no longer running. Returns whether
    /// this call was the one that stopped it, which is when the shutdown
    /// notification is to be sent; a later call changes nothing and asks for
    /// no notification.
    pub fn stop_maintenance(&mut self) -> (notify: bool)
        ensures
            *final(self) == old(self).stopped(),
            notify == old(self).running(),
            !final(self).running(),
            final(self).lru() == old(self).lru(),
            final(self).states() == old(self).states(),
    {
        let notify = self.running;
        self.running = false;
        notify
    }

    /// One round of the maintenance task. A tick prunes the tokens that have
    /// expired at the time of the tick, and the task goes on. The shutdown
    /// notification ends the task at once, without a last pruning.
    pub fn maintenance_thread(state: &mut ServerState, wake: MaintenanceWake) -> (step:
        MaintenanceStep)
        requires
            old(state).wf(),
        ensures
            final(state).wf(),
            match wake {
                MaintenanceWake::Tick { now } => {
                    &&& step == MaintenanceStep::Continue
                    &&& final(state).tokens() == pruned(old(state).tokens(), now)
                },
                MaintenanceWake::Shutdown => {
                    &&& step == MaintenanceStep::Exit
                    &&& *final(state) == *old(state)
                },
            },
            final(state).lru() == old(state).lru(),
            final(state).running() == old(state).running(),
    {
        match wake {
            MaintenanceWake::Tick { now } => {
                state.clean_states(now);
                MaintenanceStep::Continue
            },
            MaintenanceWake::Shutdown => MaintenanceStep::Exit,
        }
    }

    /// The cached keys, from the least recently used to the most recently
    /// used.
    pub fn cached_keys(&self) -> (keys: Vec<String>)
        ensures
            keys@.len() == self.cache().len(),
            forall|i: int| 0 <= i < keys@.len() ==> (#[trigger] keys@[i])@ == self.cache()[i].0,
    {
        self.lru.keys()
    }

    /// The registered tokens with their time stamps, in insertion order.
    pub fn registered(&self) -> (listing: Vec<(String, u64)>)
        ensures
            lists(listing@, self.tokens()),
    {
        self.states.entries()
    }
}

/// Shutdown is idempotent: signalling it a second time leaves the state that
/// the first signal produced, and that second signal sends no notification.
/// The signal touches neither the cache nor the tokens.
pub proof fn law_shutdown_idempotent(state: ServerState)
    ensures
        state.stopped().stopped() == state.stopped(),
        !state.stopped().running(),
        state.stopped().lru() == state.lru(),
        state.stopped().states() == state.states(),
{
}

} // verus!
