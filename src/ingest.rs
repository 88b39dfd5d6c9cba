//! The per-page pipeline: classify the payload, skip addresses already
//! indexed, transform, and store a url record and a page record.
use vstd::prelude::*;
use crate::classify::{
    classification, classify, page_markdown, payload_view, transform_body, PayloadKind,
    FALLBACK_ENCODING,
};
use crate::store::{
    addresses_unique, page_id, url_id, with_address, PageStore, Record, RecordId, StoreError,
};

verus! {

/// What became of one fetched page.
#[derive(Debug, Clone, Copy, PartialEq, Eq, Structural)]
pub enum IngestOutcome {
    /// The fetch produced no body.
    SkippedEmpty,
    /// The body was too large or not text.
    SkippedBinary,
    /// A url record with that address exists already.
    AlreadyIndexed,
    /// A page record was stored; this is its record.
    Saved(Record),
    /// The store refused a write.
    Failed(StoreError),
}

/// The next step once the store has answered the lookup of an address.
#[derive(Debug, Clone, Copy, PartialEq, Eq, Structural)]
pub enum LookupDecision {
    /// A url record with that address exists: the page is skipped.
    AlreadyIndexed,
    /// No record has that address: transform the page and create one.
    Create,
}

/// Decides what follows the lookup of an address: a found record means the
/// page was indexed before.
pub fn after_lookup(found: bool) -> (d: LookupDecision)
    ensures
        found ==> d == LookupDecision::AlreadyIndexed,
        !found ==> d == LookupDecision::Create,
{
    if found {
        LookupDecision::AlreadyIndexed
    } else {
        LookupDecision::Create
    }
}

/// The next step once the store has answered a url create.
#[derive(Debug, Clone, Copy, PartialEq, Eq, Structural)]
pub enum CreateDecision {
    /// Store the page under this url record.
    SavePage(RecordId),
    /// Another fetch stored the address first: nothing more to do.
    Skip,
    /// The write failed: drop the page.
    Drop(StoreError),
}

/// How the answer to a url create is acted on: a duplicate address is a
/// benign skip, any other refusal drops the page.
pub open spec fn create_decision(r: Result<Record, StoreError>) -> CreateDecision {
    match r {
        Ok(rec) => CreateDecision::SavePage(rec.id),
        Err(StoreError::DuplicateAddress) => CreateDecision::Skip,
        Err(e) => CreateDecision::Drop(e),
    }
}

/// Decides what follows a url create.
pub fn after_url_create(r: Result<Record, StoreError>) -> (d: CreateDecision)
    ensures
        d == create_decision(r),
{
    match r {
        Ok(rec) => CreateDecision::SavePage(rec.id),
        Err(StoreError::DuplicateAddress) => CreateDecision::Skip,
        Err(e) => CreateDecision::Drop(e),
    }
}

impl PageStore {
    /// Runs one fetched page through the pipeline.
    pub fn ingest(&mut self, address: &str, payload: Option<&[u8]>) -> (r: IngestOutcome)
        requires
            old(self).wf(),
        ensures
            final(self).wf(),
            addresses_unique(final(self).addresses()),
            classification(payload_view(payload)) == PayloadKind::Text && (old(
                self,
            ).addresses().contains(address@) || old(self).has_room()) ==> final(self).addresses()
                == with_address(old(self).addresses(), address@),
            classification(payload_view(payload)) == PayloadKind::Empty ==> r
                == IngestOutcome::SkippedEmpty && *final(self) == *old(self),
            classification(payload_view(payload)) == PayloadKind::Binary ==> r
                == IngestOutcome::SkippedBinary && *final(self) == *old(self),
            classification(payload_view(payload)) == PayloadKind::Text ==> {
                let next = old(self).spec_next_key();
                if old(self).addresses().contains(address@) {
                    r == IngestOutcome::AlreadyIndexed && *final(self) == *old(self)
                } else if !old(self).has_room() {
                    r == IngestOutcome::Failed(StoreError::KeysExhausted) && *final(self)
                        == *old(self)
                } else {
                    &&& final(self).addresses() == old(self).addresses().push(address@)
                    &&& final(self).url_ids() == old(self).url_ids().push(url_id(next))
                    &&& if next + 1 < u64::MAX {
                        &&& r == IngestOutcome::Saved(Record { id: page_id((next + 1) as u64) })
                        &&& final(self).contents() == old(self).contents().push(
                            page_markdown(payload_view(payload).unwrap(), address@),
                        )
                        &&& final(self).page_urls() == old(self).page_urls().push(url_id(next))
                        &&& final(self).page_ids() == old(self).page_ids().push(
                            page_id((next + 1) as u64),
                        )
                    } else {
                        &&& r == IngestOutcome::Failed(StoreError::KeysExhausted)
                        &&& final(self).same_pages(old(self))
                    }
                }
            },
    {
        proof {
            self.lemma_addresses_unique();
        }
        let b = match payload {
            None => {
                return IngestOutcome::SkippedEmpty;
            },
            Some(b) => b,
        };
        if classify(payload) == PayloadKind::Binary {
            return IngestOutcome::SkippedBinary;
        }
        if after_lookup(self.find_url(address).is_some()) == LookupDecision::AlreadyIndexed {
            return IngestOutcome::AlreadyIndexed;
        }
        let markup = transform_body(b, address, FALLBACK_ENCODING);
        let created = self.create_url(address);
        match after_url_create(created) {
            CreateDecision::Skip => IngestOutcome::AlreadyIndexed,
            CreateDecision::Drop(e) => IngestOutcome::Failed(e),
            CreateDecision::SavePage(id) => {
                proof {
                    let a = self.url_ids();
                    assert(a[a.len() - 1] == id);
                }
                match self.save_page(id, markup) {
                    Ok(rec) => IngestOutcome::Saved(rec),
                    Err(e) => IngestOutcome::Failed(e),
                }
            },
        }
    }
}

} // verus!
