use vstd::prelude::*;
use crate::record::TelegramMember;
use crate::engine::{ConnectError, ScraperEngine};

verus! {

/// Status code reported across the foreign boundary on failure.
pub const FAILURE: i32 = 0;

/// Status code reported across the foreign boundary on success.
pub const SUCCESS: i32 = 1;

/// Fills an empty engine slot with a fresh engine. A slot that already holds
/// an engine is left alone and the call fails, so nothing is allocated twice.
pub fn scraper_init(slot: &mut Option<ScraperEngine>) -> (code: i32)
    ensures
        old(slot).is_some() ==> code == FAILURE && *final(slot) == *old(slot),
        old(slot).is_none() ==> code == SUCCESS && final(slot).is_some() && final(slot).unwrap().wf()
            && !final(slot).unwrap().is_connected_spec() && final(slot).unwrap().cached().len() == 0,
{
    if slot.is_some() {
        return FAILURE;
    }
    *slot = Some(ScraperEngine::new());
    SUCCESS
}

/// Drops the engine; every later operation fails until the slot is filled again.
pub fn scraper_destroy(slot: &mut Option<ScraperEngine>)
    ensures
        final(slot).is_none(),
{
    *slot = None;
}

/// Checks a connect call against the slot: it fails without an engine, and
/// otherwise exactly when the engine's own check refuses the arguments.
pub fn scraper_connect_check(slot: &Option<ScraperEngine>, api_id: i32, api_hash: &str, session_file: &str) -> (code: i32)
    ensures
        code == SUCCESS || code == FAILURE,
        slot.is_none() ==> code == FAILURE,
        slot.is_some() ==> (code == SUCCESS <==> (!slot.unwrap().is_connected_spec() && api_id > 0
            && api_hash@.len() > 0 && session_file@.len() > 0)),
{
    match slot {
        Some(engine) => match engine.prepare_connect(api_id, api_hash, session_file) {
            Ok(()) => SUCCESS,
            Err(_) => FAILURE,
        },
        None => FAILURE,
    }
}

/// Records the transport's connect outcome in the slot's engine; fails
/// without an engine, on an engine already connected, or on a failed outcome.
pub fn scraper_connect_finish(slot: &mut Option<ScraperEngine>, outcome: Result<(), ConnectError>) -> (code: i32)
    ensures
        old(slot).is_none() ==> code == FAILURE && final(slot).is_none(),
        old(slot).is_some() ==> final(slot).is_some() && final(slot).unwrap().cached() == old(
            slot,
        ).unwrap().cached() && final(slot).unwrap().wf() == old(slot).unwrap().wf()
            && final(slot).unwrap().is_connected_spec() == (old(slot).unwrap().is_connected_spec()
            || outcome is Ok) && (code == SUCCESS <==> (!old(slot).unwrap().is_connected_spec()
            && outcome is Ok)) && (code == SUCCESS || code == FAILURE),
{
    match slot {
        Some(engine) => match engine.connect(outcome) {
            Ok(()) => SUCCESS,
            Err(_) => FAILURE,
        },
        None => FAILURE,
    }
}

/// Whether a scrape may start: the slot holds an engine with a session.
pub fn scraper_ready(slot: &Option<ScraperEngine>) -> (r: bool)
    ensures
        r == (slot.is_some() && slot.unwrap().is_connected_spec()),
{
    match slot {
        Some(engine) => engine.is_connected(),
        None => false,
    }
}

/// Records handed to the host, which can be taken out exactly once.
pub struct MemberBatch {
    records: Option<Vec<TelegramMember>>,
}

impl MemberBatch {
    /// The records still held, if they were not taken yet.
    pub closed spec fn held(&self) -> Option<Seq<TelegramMember>> {
        match self.records {
            Some(v) => Some(v@),
            None => None,
        }
    }

    pub fn new(records: Vec<TelegramMember>) -> (r: MemberBatch)
        ensures
            r.held() == Some(records@),
    {
        MemberBatch { records: Some(records) }
    }

    /// Hands the records out the first time and nothing afterwards.
    pub fn take(&mut self) -> (r: Option<Vec<TelegramMember>>)
        ensures
            final(self).held().is_none(),
            old(self).held().is_none() ==> r.is_none(),
            old(self).held().is_some() ==> r.is_some() && r.unwrap()@ == old(self).held().unwrap(),
    {
        self.records.take()
    }

    pub fn is_taken(&self) -> (r: bool)
        ensures
            r == self.held().is_none(),
    {
        self.records.is_none()
    }
}

} // verus!
