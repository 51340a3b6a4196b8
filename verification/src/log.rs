//! An in-memory image of one subject's durable log: an append-only record
//! store with an optional injected failure point, so the flush protocol can
//! be driven and observed without a server.

use vstd::prelude::*;
use async_nats::HeaderMap;
use crate::errors::OutputError;
use crate::headers::header_entries;

verus! {

/// One record as the durable log stores it.
pub struct PublishedRecord {
    pub subject: String,
    pub payload: Vec<u8>,
    pub headers: HeaderMap,
}

/// Mathematical image of a published record.
#[verifier::ext_equal]
pub struct PublishedModel {
    pub subject: Seq<char>,
    pub payload: Seq<u8>,
    pub headers: Map<Seq<char>, Seq<char>>,
}

impl View for PublishedRecord {
    type V = PublishedModel;

    open spec fn view(&self) -> PublishedModel {
        PublishedModel {
            subject: self.subject@,
            payload: self.payload@,
            headers: header_entries(self.headers),
        }
    }
}

/// An in-memory durable log for one subject. Publishing appends; a record is
/// either stored and acknowledged or refused whole. `fail_from` injects a
/// failure: once the log holds that many records, every further publish is
/// refused, the way a full or unreachable stream refuses writes.
pub struct MemoryLog {
    pub records: Vec<PublishedRecord>,
    pub fail_from: Option<usize>,
}

impl View for MemoryLog {
    type V = Seq<PublishedModel>;

    open spec fn view(&self) -> Seq<PublishedModel> {
        Seq::new(self.records@.len(), |i: int| self.records@[i]@)
    }
}

impl MemoryLog {
    /// Whether the next publish will be stored and acknowledged.
    pub open spec fn accepts(&self) -> bool {
        match self.fail_from {
            None => true,
            Some(k) => self.records@.len() < k,
        }
    }

    /// An empty log that accepts every publish.
    pub fn new() -> (log: MemoryLog)
        ensures
            log@ == Seq::<PublishedModel>::empty(),
            log.fail_from is None,
    {
        let log = MemoryLog { records: Vec::new(), fail_from: None };
        proof {
            assert(log@ =~= Seq::<PublishedModel>::empty());
        }
        log
    }

    /// An empty log that acknowledges the first `k` records and refuses every
    /// publish after them.
    pub fn failing_from(k: usize) -> (log: MemoryLog)
        ensures
            log@ == Seq::<PublishedModel>::empty(),
            log.fail_from == Some(k),
    {
        let log = MemoryLog { records: Vec::new(), fail_from: Some(k) };
        proof {
            assert(log@ =~= Seq::<PublishedModel>::empty());
        }
        log
    }

    /// Publish one record: appended and acknowledged exactly when the log
    /// still accepts writes, refused whole otherwise.
    pub fn publish(&mut self, record: PublishedRecord) -> (r: Result<(), OutputError>)
        ensures
            final(self).fail_from == old(self).fail_from,
            r is Ok <==> old(self).accepts(),
            old(self).accepts() ==> final(self)@ == old(self)@.push(record@),
            !old(self).accepts() ==> final(self)@ == old(self)@ && final(self).records@
                == old(self).records@,
            r matches Err(e) ==> e == OutputError::Publish,
    {
        let ok = match self.fail_from {
            None => true,
            Some(k) => self.records.len() < k,
        };
        if ok {
            self.records.push(record);
            proof {
                assert(self@ =~= old(self)@.push(self.records@.last()@));
            }
            Ok(())
        } else {
            Err(OutputError::Publish)
        }
    }

    /// How many records the log holds.
    pub fn len(&self) -> (n: usize)
        ensures
            n == self@.len(),
    {
        self.records.len()
    }
}

} // verus!
