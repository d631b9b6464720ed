//! The ledger as a mathematical value, and its two transitions.
//!
//! The whole observable state follows from the sequence of minted tokens: a
//! token's identifier is its position in that sequence, the token of a project
//! is the position that holds the project, and the tokens of an owner are the
//! positions that hold the owner, in increasing order.

use vstd::prelude::*;
use crate::record::Error;
use crate::record::Notice;
use crate::record::TokenModel;

verus! {

/// Token `i` exists and was minted for `project`.
pub open spec fn minted_at(tokens: Seq<TokenModel>, project: Seq<u8>, i: int) -> bool {
    0 <= i < tokens.len() && tokens[i].project == project
}

/// The token minted for `project`, if there is one.
pub open spec fn project_token(tokens: Seq<TokenModel>, project: Seq<u8>) -> Option<u64> {
    if exists|i: int| minted_at(tokens, project, i) {
        Some((choose|i: int| minted_at(tokens, project, i)) as u64)
    } else {
        None
    }
}

/// The identifiers of the tokens minted to `owner`, in mint order.
pub open spec fn owned_tokens(tokens: Seq<TokenModel>, owner: Seq<u8>) -> Seq<u64>
    decreases tokens.len(),
{
    if tokens.len() == 0 {
        Seq::empty()
    } else if tokens.last().owner == owner {
        owned_tokens(tokens.drop_last(), owner).push((tokens.len() - 1) as u64)
    } else {
        owned_tokens(tokens.drop_last(), owner)
    }
}

/// The metadata of token `token_id`, if it was minted.
pub open spec fn token_metadata(tokens: Seq<TokenModel>, token_id: u64) -> Option<TokenModel> {
    if token_id < tokens.len() {
        Some(tokens[token_id as int])
    } else {
        None
    }
}

/// No two tokens were minted for one project.
pub open spec fn distinct_projects(tokens: Seq<TokenModel>) -> bool {
    forall|i: int, j: int| 0 <= i < j < tokens.len() ==> tokens[i].project != tokens[j].project
}

/// The observable state of a ledger.
pub struct LedgerModel {
    /// The switch that `flip` toggles.
    pub value: bool,
    /// The account that created the ledger.
    pub owner: Seq<u8>,
    /// Whether only the owner may mint and publish.
    pub gated: bool,
    /// How many placeholder tokens were counted.
    pub total_poaps: u64,
    /// The minted tokens; a token's identifier is its index.
    pub tokens: Seq<TokenModel>,
    /// How many times a project was published.
    pub published: u64,
    /// The notifications recorded so far, oldest first.
    pub events: Seq<Notice>,
}

impl LedgerModel {
    /// The state of a new ledger created by `owner`.
    pub open spec fn initial(owner: Seq<u8>, gated: bool) -> LedgerModel {
        LedgerModel {
            value: false,
            owner,
            gated,
            total_poaps: 0,
            tokens: Seq::empty(),
            published: 0,
            events: Seq::empty(),
        }
    }

    /// No two tokens share a project, and every identifier fits the counter.
    pub open spec fn inv(self) -> bool {
        &&& self.tokens.len() <= u64::MAX
        &&& distinct_projects(self.tokens)
    }

    /// Whether `caller` may mint and publish.
    pub open spec fn authorized(self, caller: Seq<u8>) -> bool {
        !self.gated || caller == self.owner
    }

    /// What a mint request from `caller` for `project` returns.
    pub open spec fn mint_result(self, caller: Seq<u8>, project: Seq<u8>) -> Result<u64, Error> {
        if !self.authorized(caller) {
            Err(Error::Unauthorized)
        } else if project_token(self.tokens, project).is_some() {
            Err(Error::ProjectAlreadyMinted)
        } else {
            Ok(self.tokens.len() as u64)
        }
    }

    /// The state after a mint request: one more token and one more
    /// notification where the request is granted, the same state where it is
    /// refused.
    pub open spec fn after_mint(
        self,
        caller: Seq<u8>,
        project: Seq<u8>,
        recipient: Seq<u8>,
        uri: Seq<char>,
        timestamp: u64,
    ) -> LedgerModel {
        match self.mint_result(caller, project) {
            Ok(token_id) => LedgerModel {
                tokens: self.tokens.push(
                    TokenModel { project, owner: recipient, uri, timestamp },
                ),
                events: self.events.push(Notice::Minted { token_id, recipient, project, uri }),
                ..self
            },
            Err(_) => self,
        }
    }

    /// The state after `flip`: the switch toggled, nothing else.
    pub open spec fn after_flip(self) -> LedgerModel {
        LedgerModel { value: !self.value, ..self }
    }

    /// The state after `mint_dummy_poap`: one more placeholder counted,
    /// nothing else.
    pub open spec fn after_dummy_mint(self) -> LedgerModel {
        LedgerModel { total_poaps: (self.total_poaps + 1) as u64, ..self }
    }

    /// What a publish request from `caller` returns.
    pub open spec fn publish_result(self, caller: Seq<u8>) -> Result<(), Error> {
        if self.authorized(caller) {
            Ok(())
        } else {
            Err(Error::Unauthorized)
        }
    }

    /// The state after a publish request: the counter one higher and one more
    /// notification where the request is granted, the same state where it is
    /// refused. No table changes.
    pub open spec fn after_publish(self, caller: Seq<u8>, project: Seq<u8>) -> LedgerModel {
        match self.publish_result(caller) {
            Ok(_) => LedgerModel {
                published: (self.published + 1) as u64,
                events: self.events.push(Notice::Published { publisher: caller, project }),
                ..self
            },
            Err(_) => self,
        }
    }
}

} // verus!
