//! The metadata store: the record of every token, by token identifier.
//!
//! Identifiers are dense, so the store holds the record of token `i` at
//! position `i`. A record is never changed or removed.

use vstd::prelude::*;
use crate::model::token_metadata;
use crate::record::Metadata;
use crate::record::TokenModel;

verus! {

/// The table from token identifier to metadata record.
pub struct MetadataStore {
    records: Vec<Metadata>,
}

impl View for MetadataStore {
    type V = Seq<TokenModel>;

    closed spec fn view(&self) -> Seq<TokenModel> {
        Seq::new(self.records@.len(), |i: int| self.records@[i]@)
    }
}

impl MetadataStore {
    /// The empty store.
    pub fn new() -> (store: MetadataStore)
        ensures
            store@ == Seq::<TokenModel>::empty(),
    {
        let store = MetadataStore { records: Vec::new() };
        assert(store@ =~= Seq::<TokenModel>::empty());
        store
    }

    /// How many records the store holds.
    pub fn len(&self) -> (n: usize)
        ensures
            n == self@.len(),
    {
        self.records.len()
    }

    /// Whether token `token_id` has a record.
    pub fn contains(&self, token_id: u64) -> (present: bool)
        ensures
            present == token_metadata(self@, token_id).is_some(),
    {
        token_id < self.records.len() as u64
    }

    /// The record of token `token_id`, or `None` where it has none.
    pub fn get(&self, token_id: u64) -> (record: Option<&Metadata>)
        ensures
            match record {
                Some(m) => token_metadata(self@, token_id) == Some(m@),
                None => token_metadata(self@, token_id).is_none(),
            },
    {
        if token_id < self.records.len() as u64 {
            Some(&self.records[token_id as usize])
        } else {
            None
        }
    }

    /// Stores `record` as the record of token `token_id`, where that is the
    /// next identifier: the number of records held. Any other identifier is
    /// refused and the store stays as it is, so that no record is ever
    /// replaced and no identifier is skipped.
    pub fn insert(&mut self, token_id: u64, record: Metadata) -> (stored: bool)
        ensures
            stored == (token_id == old(self)@.len()),
            final(self)@ == if stored {
                old(self)@.push(record@)
            } else {
                old(self)@
            },
    {
        if token_id != self.records.len() as u64 {
            return false;
        }
        self.records.push(record);
        assert(self@ =~= old(self)@.push(record@));
        true
    }
}

} // verus!
