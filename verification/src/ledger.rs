//! The issuance ledger and the project registry.

use vstd::prelude::*;
use crate::ids::AccountId;
use crate::ids::ProjectId;
use crate::model::distinct_projects;
use crate::model::minted_at;
use crate::model::owned_tokens;
use crate::model::project_token;
use crate::model::token_metadata;
use crate::model::LedgerModel;
use crate::record::Error;
use crate::record::Event;
use crate::record::Metadata;
use crate::record::Notice;
use crate::record::TokenModel;
use crate::store::MetadataStore;
use crate::table::Table;

verus! {

/// A copy of a list of token identifiers.
pub fn copy_tokens(list: &Vec<u64>) -> (copy: Vec<u64>)
    ensures
        copy@ == list@,
{
    let mut copy: Vec<u64> = Vec::new();
    let mut i: usize = 0;
    while i < list.len()
        invariant
            i <= list@.len(),
            copy@ == list@.take(i as int),
        decreases list@.len() - i,
    {
        copy.push(list[i]);
        assert(list@.take(i + 1) =~= list@.take(i as int).push(list@[i as int]));
        i += 1;
    }
    assert(list@.take(list@.len() as int) =~= list@);
    copy
}

/// The mathematical values of a list of records.
pub open spec fn records_view(records: Seq<Metadata>) -> Seq<TokenModel> {
    Seq::new(records.len(), |i: int| records[i]@)
}

/// The ledger: the token store, its two indices, the counters and the
/// notifications not yet handed to the host.
pub struct GitArchPOAP {
    value: bool,
    owner: AccountId,
    gated: bool,
    total_poaps: u64,
    total_issued: u64,
    total_projects_published: u64,
    metadata: MetadataStore,
    projects: Table<u64>,
    owners: Table<Vec<u64>>,
    events: Vec<Event>,
}

impl View for GitArchPOAP {
    type V = LedgerModel;

    closed spec fn view(&self) -> LedgerModel {
        LedgerModel {
            value: self.value,
            owner: self.owner@,
            gated: self.gated,
            total_poaps: self.total_poaps,
            tokens: self.metadata@,
            published: self.total_projects_published,
            events: Seq::new(self.events@.len(), |i: int| self.events@[i]@),
        }
    }
}

impl GitArchPOAP {
    /// What the owner index lists for `owner`: nothing where it has no entry.
    pub closed spec fn listed(&self, owner: Seq<u8>) -> Seq<u64> {
        if self.owners@.contains_key(owner) {
            self.owners@[owner]@
        } else {
            Seq::empty()
        }
    }

    /// The counter and the two indices agree with the token store.
    pub closed spec fn wf(&self) -> bool {
        &&& self.projects.wf()
        &&& self.owners.wf()
        &&& self.total_issued == self.metadata@.len()
        &&& forall|i: int|
            0 <= i < self.metadata@.len() ==> self.projects@.contains_key(
                #[trigger] self.metadata@[i].project,
            ) && self.projects@[self.metadata@[i].project] == i
        &&& forall|p: Seq<u8>| #[trigger]
            self.projects@.contains_key(p) ==> minted_at(self.metadata@, p, self.projects@[p] as int)
        &&& forall|o: Seq<u8>| #[trigger] self.listed(o) == owned_tokens(self.metadata@, o)
    }

    /// A well-formed ledger holds at most one token per project.
    pub proof fn lemma_wf_inv(&self)
        requires
            self.wf(),
        ensures
            self@.inv(),
    {
        assert forall|i: int, j: int| 0 <= i < j < self@.tokens.len() implies self@.tokens[i].project
            != self@.tokens[j].project by {
            assert(self.projects@[self.metadata@[i].project] == i);
            assert(self.projects@[self.metadata@[j].project] == j);
        }
    }

    /// Well-formedness rests on the store, the indices and the token counter
    /// alone.
    proof fn lemma_same_tables(&self, other: GitArchPOAP)
        requires
            other.wf(),
            self.metadata == other.metadata,
            self.projects == other.projects,
            self.owners == other.owners,
            self.total_issued == other.total_issued,
        ensures
            self.wf(),
    {
        assert forall|o: Seq<u8>| #[trigger] self.listed(o) == owned_tokens(self.metadata@, o) by {
            assert(other.listed(o) == owned_tokens(other.metadata@, o));
        }
    }

    proof fn lemma_project(&self, project: Seq<u8>)
        requires
            self.wf(),
        ensures
            project_token(self@.tokens, project) == if self.projects@.contains_key(project) {
                Some(self.projects@[project])
            } else {
                None
            },
    {
        if self.projects@.contains_key(project) {
            assert(minted_at(self.metadata@, project, self.projects@[project] as int));
            let i = choose|i: int| minted_at(self.metadata@, project, i);
            assert(self.projects@[self.metadata@[i].project] == i);
        } else {
            if exists|i: int| minted_at(self.metadata@, project, i) {
                let i = choose|i: int| minted_at(self.metadata@, project, i);
                assert(self.projects@.contains_key(self.metadata@[i].project));
            }
        }
    }

    fn create(caller: AccountId, gated: bool) -> (ledger: GitArchPOAP)
        ensures
            ledger.wf(),
            ledger@ == LedgerModel::initial(caller@, gated),
    {
        let ledger = GitArchPOAP {
            value: false,
            owner: caller,
            gated,
            total_poaps: 0,
            total_issued: 0,
            total_projects_published: 0,
            metadata: MetadataStore::new(),
            projects: Table::new(),
            owners: Table::new(),
            events: Vec::new(),
        };
        assert(ledger@.events =~= Seq::<Notice>::empty());
        assert forall|o: Seq<u8>| #[trigger] ledger.listed(o) == owned_tokens(ledger.metadata@, o) by {}
        ledger
    }

    /// A new ledger on which anyone may mint and publish: counters at zero,
    /// tables empty, `caller` recorded as owner.
    pub fn new(caller: AccountId) -> (ledger: GitArchPOAP)
        ensures
            ledger.wf(),
            ledger@ == LedgerModel::initial(caller@, false),
    {
        Self::create(caller, false)
    }

    /// A new ledger on which only `caller`, its owner, may mint and publish.
    pub fn new_owner_gated(caller: AccountId) -> (ledger: GitArchPOAP)
        ensures
            ledger.wf(),
            ledger@ == LedgerModel::initial(caller@, true),
    {
        Self::create(caller, true)
    }

    /// Gives the next identifier to a new token and writes it to the store
    /// and to both indices.
    fn issue(
        &mut self,
        project_id: ProjectId,
        recipient: AccountId,
        metadata_uri: String,
        timestamp: u64,
    ) -> (token_id: u64)
        requires
            old(self).wf(),
            old(self)@.tokens.len() < u64::MAX,
            project_token(old(self)@.tokens, project_id@).is_none(),
        ensures
            final(self).wf(),
            token_id == old(self)@.tokens.len(),
            final(self)@ == (LedgerModel {
                tokens: old(self)@.tokens.push(
                    TokenModel {
                        project: project_id@,
                        owner: recipient@,
                        uri: metadata_uri@,
                        timestamp,
                    },
                ),
                ..old(self)@
            }),
    {
        proof {
            self.lemma_project(project_id@);
        }
        let ghost before = *self;
        let token_id = self.total_issued;
        self.total_issued = token_id + 1;
        let record = Metadata { project_id, owner: recipient, metadata_uri, timestamp };
        self.metadata.insert(token_id, record);
        self.projects.insert(project_id.bytes, token_id);
        let mut list = match self.owners.get(&recipient.bytes) {
            Some(held) => copy_tokens(held),
            None => Vec::new(),
        };
        list.push(token_id);
        self.owners.insert(recipient.bytes, list);
        proof {
            let old_tokens = before.metadata@;
            let new_tokens = self.metadata@;
            assert(new_tokens.drop_last() =~= old_tokens);
            assert forall|i: int| 0 <= i < new_tokens.len() implies self.projects@.contains_key(
                #[trigger] new_tokens[i].project,
            ) && self.projects@[new_tokens[i].project] == i by {
                if i < old_tokens.len() {
                    assert(before.projects@.contains_key(old_tokens[i].project));
                }
            }
            assert forall|p: Seq<u8>| #[trigger] self.projects@.contains_key(p) implies minted_at(
                new_tokens,
                p,
                self.projects@[p] as int,
            ) by {
                if p != project_id@ {
                    assert(minted_at(old_tokens, p, before.projects@[p] as int));
                }
            }
            assert forall|o: Seq<u8>| #[trigger] self.listed(o) == owned_tokens(new_tokens, o) by {
                assert(before.listed(o) == owned_tokens(old_tokens, o));
            }
            assert(self@.events =~= before@.events);
        }
        token_id
    }

    /// Rebuilds a ledger from what a host has kept of it: the owner, the
    /// gate, the switch, the two free counters and the token records in mint
    /// order. The token count and both indices follow from the records, and
    /// no notification is recorded. `None` where two records name the same
    /// project: no ledger ever holds such records.
    pub fn restore(
        owner: AccountId,
        gated: bool,
        value: bool,
        total_poaps: u64,
        total_projects_published: u64,
        records: &Vec<Metadata>,
    ) -> (ledger: Option<GitArchPOAP>)
        ensures
            ledger.is_some() == distinct_projects(records_view(records@)),
            ledger matches Some(l) ==> l.wf() && l@ == (LedgerModel {
                value,
                total_poaps,
                published: total_projects_published,
                tokens: records_view(records@),
                ..LedgerModel::initial(owner@, gated)
            }),
    {
        let mut ledger = Self::create(owner, gated);
        let ghost fresh = ledger;
        ledger.value = value;
        ledger.total_poaps = total_poaps;
        ledger.total_projects_published = total_projects_published;
        let ghost all = records_view(records@);
        proof {
            ledger.lemma_same_tables(fresh);
            assert(ledger@.tokens =~= all.take(0));
        }
        let mut i: usize = 0;
        while i < records.len()
            invariant
                i <= records@.len(),
                all == records_view(records@),
                ledger.wf(),
                ledger@ == (LedgerModel {
                    value,
                    total_poaps,
                    published: total_projects_published,
                    tokens: all.take(i as int),
                    ..LedgerModel::initial(owner@, gated)
                }),
            decreases records@.len() - i,
        {
            let record = &records[i];
            proof {
                ledger.lemma_project(record.project_id@);
            }
            if ledger.projects.contains(&record.project_id.bytes) {
                proof {
                    let j = choose|j: int| minted_at(all.take(i as int), record.project_id@, j);
                    assert(all[j].project == all[i as int].project);
                }
                return None;
            }
            let uri = record.metadata_uri.clone();
            ledger.issue(record.project_id, record.owner, uri, record.timestamp);
            proof {
                assert(all.take(i + 1) =~= all.take(i as int).push(all[i as int]));
            }
            i += 1;
        }
        proof {
            assert(all.take(i as int) =~= all);
            ledger.lemma_wf_inv();
        }
        Some(ledger)
    }

    /// Mints the one token of `project_id` to `recipient`.
    ///
    /// Refused with `Unauthorized` where the ledger is owner-gated and `caller`
    /// is not the owner, else with `ProjectAlreadyMinted` where the project has
    /// its token. A refused request changes nothing. A granted one returns the
    /// next identifier, stores the record, enters it in both indices and
    /// records a `Minted` notification.
    pub fn mint(
        &mut self,
        caller: AccountId,
        project_id: ProjectId,
        recipient: AccountId,
        metadata_uri: String,
        timestamp: u64,
    ) -> (result: Result<u64, Error>)
        requires
            old(self).wf(),
            old(self)@.mint_result(caller@, project_id@).is_ok() ==> old(self)@.tokens.len()
                < u64::MAX,
        ensures
            final(self).wf(),
            result == old(self)@.mint_result(caller@, project_id@),
            final(self)@ == old(self)@.after_mint(
                caller@,
                project_id@,
                recipient@,
                metadata_uri@,
                timestamp,
            ),
    {
        proof {
            self.lemma_project(project_id@);
        }
        if self.gated && !caller.same(&self.owner) {
            return Err(Error::Unauthorized);
        }
        if self.projects.contains(&project_id.bytes) {
            return Err(Error::ProjectAlreadyMinted);
        }
        let uri = metadata_uri.clone();
        let token_id = self.issue(project_id, recipient, uri, timestamp);
        let ghost before = *self;
        self.events.push(Event::Minted { token_id, recipient, project_id, metadata_uri });
        proof {
            self.lemma_same_tables(before);
            assert(self@.events =~= before@.events.push(
                Notice::Minted {
                    token_id,
                    recipient: recipient@,
                    project: project_id@,
                    uri: metadata_uri@,
                },
            ));
        }
        Ok(token_id)
    }

    /// Counts one publication of `project_id` and records a `Published`
    /// notification that names `caller`. Nothing is kept per project: a second
    /// call for the same project counts again. Refused with `Unauthorized`
    /// where the ledger is owner-gated and `caller` is not the owner.
    pub fn publish(&mut self, caller: AccountId, project_id: ProjectId) -> (result: Result<
        (),
        Error,
    >)
        requires
            old(self).wf(),
            old(self)@.authorized(caller@) ==> old(self)@.published < u64::MAX,
        ensures
            final(self).wf(),
            result == old(self)@.publish_result(caller@),
            final(self)@ == old(self)@.after_publish(caller@, project_id@),
    {
        if self.gated && !caller.same(&self.owner) {
            return Err(Error::Unauthorized);
        }
        let ghost before = *self;
        self.total_projects_published = self.total_projects_published + 1;
        self.events.push(Event::Published { publisher: caller, project_id });
        proof {
            self.lemma_same_tables(before);
            assert(self@.events =~= before@.events.push(
                Notice::Published { publisher: caller@, project: project_id@ },
            ));
        }
        Ok(())
    }

    /// The tokens minted to `owner`, in mint order; empty where it has none.
    pub fn get_user_tokens(&self, owner: &AccountId) -> (tokens: Vec<u64>)
        requires
            self.wf(),
        ensures
            tokens@ == owned_tokens(self@.tokens, owner@),
    {
        assert(self.listed(owner@) == owned_tokens(self.metadata@, owner@));
        match self.owners.get(&owner.bytes) {
            Some(held) => copy_tokens(held),
            None => Vec::new(),
        }
    }

    /// The record of token `token_id`, or `None` where it was never minted.
    pub fn get_metadata(&self, token_id: u64) -> (record: Option<Metadata>)
        ensures
            match record {
                Some(m) => token_metadata(self@.tokens, token_id) == Some(m@),
                None => token_metadata(self@.tokens, token_id).is_none(),
            },
    {
        match self.metadata.get(token_id) {
            Some(m) => Some(
                Metadata {
                    project_id: m.project_id,
                    owner: m.owner,
                    metadata_uri: m.metadata_uri.clone(),
                    timestamp: m.timestamp,
                },
            ),
            None => None,
        }
    }

    /// The token minted for `project_id`, or `None` where none was.
    pub fn get_project_token(&self, project_id: &ProjectId) -> (token: Option<u64>)
        requires
            self.wf(),
        ensures
            token == project_token(self@.tokens, project_id@),
    {
        proof {
            self.lemma_project(project_id@);
        }
        match self.projects.get(&project_id.bytes) {
            Some(token_id) => Some(*token_id),
            None => None,
        }
    }

    /// How many tokens were minted; also the identifier of the next one.
    pub fn total_issued(&self) -> (n: u64)
        requires
            self.wf(),
        ensures
            n == self@.tokens.len(),
    {
        self.total_issued
    }

    /// How many publications were counted.
    pub fn total_projects_published(&self) -> (n: u64)
        ensures
            n == self@.published,
    {
        self.total_projects_published
    }

    /// Whether only the owner may mint and publish.
    pub fn is_owner_gated(&self) -> (gated: bool)
        ensures
            gated == self@.gated,
    {
        self.gated
    }

    /// The notifications recorded so far, oldest first.
    pub fn events(&self) -> (log: &Vec<Event>)
        ensures
            log@.len() == self@.events.len(),
            forall|i: int| 0 <= i < log@.len() ==> (#[trigger] log@[i])@ == self@.events[i],
    {
        &self.events
    }

    /// Hands the recorded notifications to the host, oldest first, and
    /// leaves none recorded. Nothing else changes.
    pub fn take_events(&mut self) -> (log: Vec<Event>)
        requires
            old(self).wf(),
        ensures
            final(self).wf(),
            final(self)@ == (LedgerModel { events: Seq::empty(), ..old(self)@ }),
            log@.len() == old(self)@.events.len(),
            forall|i: int| 0 <= i < log@.len() ==> (#[trigger] log@[i])@ == old(self)@.events[i],
    {
        let mut log: Vec<Event> = Vec::new();
        std::mem::swap(&mut self.events, &mut log);
        proof {
            self.lemma_same_tables(*old(self));
            assert(self@.events =~= Seq::<Notice>::empty());
        }
        log
    }

    /// The state of the switch.
    pub fn get_value(&self) -> (value: bool)
        ensures
            value == self@.value,
    {
        self.value
    }

    /// Toggles the switch.
    pub fn flip(&mut self)
        requires
            old(self).wf(),
        ensures
            final(self).wf(),
            final(self)@ == old(self)@.after_flip(),
    {
        self.value = !self.value;
        proof {
            self.lemma_same_tables(*old(self));
        }
    }

    /// The account that created the ledger.
    pub fn get_owner(&self) -> (owner: AccountId)
        ensures
            owner@ == self@.owner,
    {
        self.owner
    }

    /// How many placeholder tokens were counted.
    pub fn get_total_poaps(&self) -> (n: u64)
        ensures
            n == self@.total_poaps,
    {
        self.total_poaps
    }

    /// Counts one placeholder token. No token is minted and no table changes.
    pub fn mint_dummy_poap(&mut self)
        requires
            old(self).wf(),
            old(self)@.total_poaps < u64::MAX,
        ensures
            final(self).wf(),
            final(self)@ == old(self)@.after_dummy_mint(),
    {
        self.total_poaps = self.total_poaps + 1;
        proof {
            self.lemma_same_tables(*old(self));
        }
    }
}

} // verus!
