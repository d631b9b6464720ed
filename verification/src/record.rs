//! What the ledger stores and reports: token metadata, notifications, errors.

use vstd::prelude::*;
use crate::ids::AccountId;
use crate::ids::ProjectId;

verus! {

/// Why an operation was refused.
#[derive(Clone, Copy, Debug, PartialEq, Eq, Structural)]
pub enum Error {
    /// A token was already minted for the project.
    ProjectAlreadyMinted,
    /// The ledger is owner-gated and the caller is not its owner.
    Unauthorized,
}

/// The mathematical value of a token's metadata.
pub struct TokenModel {
    pub project: Seq<u8>,
    pub owner: Seq<u8>,
    pub uri: Seq<char>,
    pub timestamp: u64,
}

/// The immutable record kept for a token.
#[derive(Clone, Debug, PartialEq, Eq)]
pub struct Metadata {
    pub project_id: ProjectId,
    pub owner: AccountId,
    pub metadata_uri: String,
    pub timestamp: u64,
}

impl View for Metadata {
    type V = TokenModel;

    open spec fn view(&self) -> TokenModel {
        TokenModel {
            project: self.project_id@,
            owner: self.owner@,
            uri: self.metadata_uri@,
            timestamp: self.timestamp,
        }
    }
}

/// The mathematical value of a notification.
pub enum Notice {
    Minted { token_id: u64, recipient: Seq<u8>, project: Seq<u8>, uri: Seq<char> },
    Published { publisher: Seq<u8>, project: Seq<u8> },
}

/// A notification for the host to emit, recorded after the state change it reports.
#[derive(Clone, Debug, PartialEq, Eq)]
pub enum Event {
    /// A token was minted.
    Minted { token_id: u64, recipient: AccountId, project_id: ProjectId, metadata_uri: String },
    /// A project was published by `publisher`.
    Published { publisher: AccountId, project_id: ProjectId },
}

impl View for Event {
    type V = Notice;

    open spec fn view(&self) -> Notice {
        match *self {
            Event::Minted { token_id, recipient, project_id, metadata_uri } => Notice::Minted {
                token_id,
                recipient: recipient@,
                project: project_id@,
                uri: metadata_uri@,
            },
            Event::Published { publisher, project_id } => Notice::Published {
                publisher: publisher@,
                project: project_id@,
            },
        }
    }
}

} // verus!
