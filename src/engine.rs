use vstd::prelude::*;
use crate::record::{RawMember, TelegramMember, normalize_all};
use crate::cache::CacheStore;
use crate::sweep::{merged, merge_batch, RateLimiter, ScrapingTask, Sweep, default_patterns, sweep_prefixes};

verus! {

/// Why a connect attempt failed.
#[derive(PartialEq, Eq, Structural, Clone, Copy, Debug)]
pub enum ConnectError {
    /// The api id is not positive, or the api hash or session path is empty.
    InvalidArgument,
    /// The engine already holds a session.
    AlreadyConnected,
    /// The backend rejected the credentials.
    Auth,
    /// The session state could not be read or written.
    Session,
    /// The backend could not be reached.
    Network,
}

/// Why a scrape could not start.
#[derive(PartialEq, Eq, Structural, Clone, Copy, Debug)]
pub enum ScrapeError {
    /// No session was established.
    NotConnected,
    /// The target does not name a channel.
    Resolution,
    /// The backend failed while resolving the target.
    Backend,
}

/// Outcome of resolving a target name through the transport.
#[derive(PartialEq, Eq, Structural, Clone, Copy, Debug)]
pub enum Resolution {
    Found,
    NotFound,
    Failed,
}

/// One search query failed; the sweep skips its prefix.
#[derive(PartialEq, Eq, Structural, Clone, Copy, Debug)]
pub struct TransientError;

/// The engine context: whether a transport session is established, and the
/// cache of every unique record found during its lifetime.
pub struct ScraperEngine {
    connected: bool,
    cache: CacheStore,
}

impl ScraperEngine {
    pub closed spec fn is_connected_spec(&self) -> bool {
        self.connected
    }

    /// The cached records in first-seen order.
    pub closed spec fn cached(&self) -> Seq<TelegramMember> {
        self.cache@
    }

    pub closed spec fn wf(&self) -> bool {
        self.cache.wf()
    }

    /// A context with no session and an empty cache.
    pub fn new() -> (r: ScraperEngine)
        ensures
            r.wf(),
            !r.is_connected_spec(),
            r.cached() == Seq::<TelegramMember>::empty(),
    {
        ScraperEngine { connected: false, cache: CacheStore::new() }
    }

    pub fn is_connected(&self) -> (r: bool)
        ensures
            r == self.is_connected_spec(),
    {
        self.connected
    }

    /// Checks a connect request before the transport is asked to connect.
    pub fn prepare_connect(&self, api_id: i32, api_hash: &str, session_file: &str) -> (r: Result<(), ConnectError>)
        ensures
            self.is_connected_spec() ==> r == Err::<(), ConnectError>(ConnectError::AlreadyConnected),
            !self.is_connected_spec() ==> (r is Ok <==> (api_id > 0 && api_hash@.len() > 0
                && session_file@.len() > 0)),
            !self.is_connected_spec() && r is Err ==> r == Err::<(), ConnectError>(ConnectError::InvalidArgument),
    {
        if self.connected {
            Err(ConnectError::AlreadyConnected)
        } else if api_id <= 0 || api_hash.unicode_len() == 0 || session_file.unicode_len() == 0 {
            Err(ConnectError::InvalidArgument)
        } else {
            Ok(())
        }
    }

    /// Records the outcome of the transport's connect: the engine is connected
    /// afterwards iff it was not before and the transport succeeded.
    pub fn connect(&mut self, outcome: Result<(), ConnectError>) -> (r: Result<(), ConnectError>)
        ensures
            final(self).cached() == old(self).cached(),
            final(self).wf() == old(self).wf(),
            old(self).is_connected_spec() ==> r == Err::<(), ConnectError>(ConnectError::AlreadyConnected)
                && final(self).is_connected_spec(),
            !old(self).is_connected_spec() ==> r == outcome && final(self).is_connected_spec() == (
            outcome is Ok),
    {
        if self.connected {
            return Err(ConnectError::AlreadyConnected);
        }
        if outcome.is_ok() {
            self.connected = true;
        }
        outcome
    }

    /// Starts a scrape of `target` once the transport resolved it: the sweep
    /// covers the default prefixes with the default spacing. A zero cap needs
    /// no resolution: the sweep starts finished, whatever `resolution` says.
    pub fn scrape_channel(&self, target: String, max_members: u32, resolution: Resolution) -> (r: Result<Sweep, ScrapeError>)
        ensures
            !self.is_connected_spec() ==> r == Err::<Sweep, ScrapeError>(ScrapeError::NotConnected),
            self.is_connected_spec() && max_members > 0 && resolution == Resolution::NotFound ==> r == Err::<Sweep, ScrapeError>(ScrapeError::Resolution),
            self.is_connected_spec() && max_members > 0 && resolution == Resolution::Failed ==> r == Err::<Sweep, ScrapeError>(ScrapeError::Backend),
            self.is_connected_spec() && (max_members == 0 || resolution == Resolution::Found) ==> r is Ok && ({
                let s = r->Ok_0;
                &&& s.task.target == target
                &&& s.task.max_members == max_members
                &&& s.task.patterns@.map_values(|p: String| p@) == sweep_prefixes()
                &&& s.next == 0
                &&& s.added == 0
                &&& s.limiter.spacing_secs == 2
            }),
    {
        if !self.connected {
            return Err(ScrapeError::NotConnected);
        }
        if max_members == 0 {
            let task = ScrapingTask { target, max_members, patterns: default_patterns() };
            return Ok(Sweep::new(task, RateLimiter::new()));
        }
        match resolution {
            Resolution::NotFound => Err(ScrapeError::Resolution),
            Resolution::Failed => Err(ScrapeError::Backend),
            Resolution::Found => {
                let task = ScrapingTask { target, max_members, patterns: default_patterns() };
                Ok(Sweep::new(task, RateLimiter::new()))
            },
        }
    }

    /// Feeds the outcome of the sweep's pending search into the cache, moves
    /// the sweep to its next prefix, and returns the seconds to wait before
    /// the next query. A failed search leaves the cache as it was.
    pub fn absorb(&mut self, sweep: &mut Sweep, outcome: Result<Vec<RawMember>, TransientError>) -> (pause: u64)
        requires
            old(self).wf(),
            old(sweep).searching(),
        ensures
            final(self).wf(),
            final(self).is_connected_spec() == old(self).is_connected_spec(),
            final(sweep).task == old(sweep).task,
            final(sweep).limiter == old(sweep).limiter,
            final(sweep).next == old(sweep).next + 1,
            final(self).cached() == match outcome {
                Ok(batch) => merged(old(self).cached(), normalize_all(batch@, old(sweep).task.target), old(sweep).room()),
                Err(_) => old(self).cached(),
            },
            final(sweep).added == old(sweep).added + (final(self).cached().len() - old(self).cached().len()),
            pause == old(sweep).limiter.spacing_secs,
    {
        match outcome {
            Ok(batch) => {
                let room = sweep.task.max_members - sweep.added;
                let added = merge_batch(&mut self.cache, &batch, &sweep.task.target, room);
                sweep.added = sweep.added + added;
            },
            Err(_) => {},
        }
        let n_patterns = sweep.task.patterns.len();
        assert(sweep.next < n_patterns);
        sweep.next = sweep.next + 1;
        sweep.limiter.wait_before_next()
    }

    /// The result of a finished sweep: the cached records in first-seen
    /// order, cut to the task's cap.
    pub fn collect(&self, sweep: &Sweep) -> (r: Vec<TelegramMember>)
        ensures
            r@ == self.cached().take(
                if (sweep.task.max_members as int) < self.cached().len() { sweep.task.max_members as int } else { self.cached().len() as int },
            ),
    {
        self.cache.snapshot(sweep.task.max_members as usize)
    }

    /// Number of unique records cached so far.
    pub fn cached_count(&self) -> (r: usize)
        ensures
            r == self.cached().len(),
    {
        self.cache.len()
    }
}

} // verus!
