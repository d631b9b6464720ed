//! What holds of the ledger's transitions, for every state and every request.

use vstd::prelude::*;
use crate::model::distinct_projects;
use crate::model::minted_at;
use crate::model::owned_tokens;
use crate::model::project_token;
use crate::model::token_metadata;
use crate::model::LedgerModel;
use crate::record::Error;
use crate::record::TokenModel;

verus! {

/// A request to mint, as the host hands it in.
pub struct MintRequest {
    pub caller: Seq<u8>,
    pub project: Seq<u8>,
    pub recipient: Seq<u8>,
    pub uri: Seq<char>,
    pub timestamp: u64,
}

/// One call that changes a ledger.
pub enum Request {
    Mint(MintRequest),
    Publish { caller: Seq<u8>, project: Seq<u8> },
    Flip,
    DummyMint,
}

/// The state after the mint request `request`.
pub open spec fn step(s: LedgerModel, request: MintRequest) -> LedgerModel {
    s.after_mint(
        request.caller,
        request.project,
        request.recipient,
        request.uri,
        request.timestamp,
    )
}

/// The state after the call `request`.
pub open spec fn apply(s: LedgerModel, request: Request) -> LedgerModel {
    match request {
        Request::Mint(mint) => step(s, mint),
        Request::Publish { caller, project } => s.after_publish(caller, project),
        Request::Flip => s.after_flip(),
        Request::DummyMint => s.after_dummy_mint(),
    }
}

/// The identifier that `request` returns, where it is a mint and is granted.
pub open spec fn issued(s: LedgerModel, request: Request) -> Option<u64> {
    match request {
        Request::Mint(mint) => match s.mint_result(mint.caller, mint.project) {
            Ok(token_id) => Some(token_id),
            Err(_) => None,
        },
        _ => None,
    }
}

/// The state after the calls of `requests`, made in order.
pub open spec fn run(s: LedgerModel, requests: Seq<Request>) -> LedgerModel
    decreases requests.len(),
{
    if requests.len() == 0 {
        s
    } else {
        apply(run(s, requests.drop_last()), requests.last())
    }
}

/// The identifiers that the granted mints among `requests` return, in order.
pub open spec fn granted(s: LedgerModel, requests: Seq<Request>) -> Seq<u64>
    decreases requests.len(),
{
    if requests.len() == 0 {
        Seq::empty()
    } else {
        let earlier = granted(s, requests.drop_last());
        match issued(run(s, requests.drop_last()), requests.last()) {
            Some(token_id) => earlier.push(token_id),
            None => earlier,
        }
    }
}

/// A new ledger holds no token: every lookup by token, by project and by
/// owner finds nothing.
pub proof fn law_new_ledger_is_empty(
    owner: Seq<u8>,
    gated: bool,
    token_id: u64,
    project: Seq<u8>,
    holder: Seq<u8>,
)
    ensures
        LedgerModel::initial(owner, gated).inv(),
        token_metadata(LedgerModel::initial(owner, gated).tokens, token_id).is_none(),
        project_token(LedgerModel::initial(owner, gated).tokens, project).is_none(),
        owned_tokens(LedgerModel::initial(owner, gated).tokens, holder) == Seq::<u64>::empty(),
{
}

/// Once a mint for a project was granted, every later mint for that project
/// is refused and leaves the state as it was. The refusal is
/// `ProjectAlreadyMinted` whenever the second caller is allowed to mint at
/// all.
pub proof fn law_second_mint_is_refused(s: LedgerModel, first: MintRequest, second: MintRequest)
    requires
        s.mint_result(first.caller, first.project).is_ok(),
        second.project == first.project,
    ensures
        step(s, first).mint_result(second.caller, second.project).is_err(),
        step(s, first).authorized(second.caller) ==> step(s, first).mint_result(
            second.caller,
            second.project,
        ) == Err::<u64, Error>(Error::ProjectAlreadyMinted),
        step(step(s, first), second) == step(s, first),
{
    let after = step(s, first);
    assert(minted_at(after.tokens, first.project, s.tokens.len() as int));
}

/// A refused mint changes nothing.
pub proof fn law_refused_mint_changes_nothing(s: LedgerModel, request: MintRequest)
    requires
        s.mint_result(request.caller, request.project).is_err(),
    ensures
        step(s, request) == s,
{
}

/// A mint keeps the ledger's invariant: still at most one token per project.
pub proof fn law_mint_keeps_invariant(s: LedgerModel, request: MintRequest)
    requires
        s.inv(),
        s.tokens.len() < u64::MAX,
    ensures
        step(s, request).inv(),
{
    let after = step(s, request);
    if s.mint_result(request.caller, request.project).is_ok() {
        assert forall|i: int, j: int| 0 <= i < j < after.tokens.len() implies after.tokens[i].project
            != after.tokens[j].project by {
            if j == s.tokens.len() {
                assert(!minted_at(s.tokens, request.project, i));
            }
        }
    }
}

/// A granted mint is recorded in all three tables, and nowhere else: the new
/// token's metadata is what was handed in, the project gets the new token,
/// the recipient's list gets it at its end, and every other token, project
/// and owner reads as before.
pub proof fn law_granted_mint_is_recorded(
    s: LedgerModel,
    request: MintRequest,
    other_token: u64,
    other_project: Seq<u8>,
    other_owner: Seq<u8>,
)
    requires
        s.inv(),
        s.tokens.len() < u64::MAX,
        s.mint_result(request.caller, request.project).is_ok(),
        other_token != s.tokens.len(),
        other_project != request.project,
        other_owner != request.recipient,
    ensures
        s.mint_result(request.caller, request.project) == Ok::<u64, Error>(s.tokens.len() as u64),
        token_metadata(step(s, request).tokens, s.tokens.len() as u64) == Some(
            TokenModel {
                project: request.project,
                owner: request.recipient,
                uri: request.uri,
                timestamp: request.timestamp,
            },
        ),
        project_token(step(s, request).tokens, request.project) == Some(s.tokens.len() as u64),
        owned_tokens(step(s, request).tokens, request.recipient) == owned_tokens(
            s.tokens,
            request.recipient,
        ).push(s.tokens.len() as u64),
        token_metadata(step(s, request).tokens, other_token) == token_metadata(
            s.tokens,
            other_token,
        ),
        project_token(step(s, request).tokens, other_project) == project_token(
            s.tokens,
            other_project,
        ),
        owned_tokens(step(s, request).tokens, other_owner) == owned_tokens(s.tokens, other_owner),
{
    let after = step(s, request);
    let n = s.tokens.len() as int;
    assert(after.tokens.drop_last() =~= s.tokens);
    law_mint_keeps_invariant(s, request);
    assert(minted_at(after.tokens, request.project, n));
    law_project_token_is_exact(after.tokens, request.project, n);
    if exists|i: int| minted_at(s.tokens, other_project, i) {
        let i = choose|i: int| minted_at(s.tokens, other_project, i);
        assert(minted_at(after.tokens, other_project, i));
        law_project_token_is_exact(s.tokens, other_project, i);
        law_project_token_is_exact(after.tokens, other_project, i);
    } else {
        assert forall|i: int| !minted_at(after.tokens, other_project, i) by {
            if 0 <= i < n {
                assert(!minted_at(s.tokens, other_project, i));
            }
        }
    }
}

/// Where no two tokens share a project, the token of a project is the one
/// token that was minted for it, and a project without a token has none.
pub proof fn law_project_token_is_exact(tokens: Seq<TokenModel>, project: Seq<u8>, i: int)
    requires
        tokens.len() <= u64::MAX,
        distinct_projects(tokens),
    ensures
        minted_at(tokens, project, i) ==> project_token(tokens, project) == Some(i as u64),
        (forall|k: int| !minted_at(tokens, project, k)) ==> project_token(tokens, project).is_none(),
        project_token(tokens, project) matches Some(t) ==> minted_at(tokens, project, t as int),
{
    if exists|k: int| minted_at(tokens, project, k) {
        let k = choose|k: int| minted_at(tokens, project, k);
        if minted_at(tokens, project, i) {
            if i < k {
                assert(tokens[i].project != tokens[k].project);
            } else if k < i {
                assert(tokens[k].project != tokens[i].project);
            }
        }
    }
}

/// The list of an owner holds exactly the tokens minted to that owner, each
/// once, in mint order: every entry names a token of the owner, the entries
/// increase strictly, and every token of the owner is an entry. An owner who
/// received no token has an empty list.
pub proof fn law_owner_list_is_exact(tokens: Seq<TokenModel>, owner: Seq<u8>)
    requires
        tokens.len() <= u64::MAX,
    ensures
        forall|k: int|
            0 <= k < owned_tokens(tokens, owner).len() ==> (#[trigger] owned_tokens(
                tokens,
                owner,
            )[k]) < tokens.len() && tokens[owned_tokens(tokens, owner)[k] as int].owner == owner,
        forall|k: int, l: int|
            0 <= k < l < owned_tokens(tokens, owner).len() ==> owned_tokens(tokens, owner)[k]
                < owned_tokens(tokens, owner)[l],
        forall|i: int|
            0 <= i < tokens.len() && (#[trigger] tokens[i]).owner == owner ==> owned_tokens(
                tokens,
                owner,
            ).contains(i as u64),
        (forall|i: int| 0 <= i < tokens.len() ==> (#[trigger] tokens[i]).owner != owner)
            ==> owned_tokens(tokens, owner) == Seq::<u64>::empty(),
    decreases tokens.len(),
{
    if tokens.len() > 0 {
        let front = tokens.drop_last();
        let rest = owned_tokens(front, owner);
        let ids = owned_tokens(tokens, owner);
        let n = (tokens.len() - 1) as int;
        law_owner_list_is_exact(front, owner);
        assert forall|i: int| 0 <= i < tokens.len() && (#[trigger] tokens[i]).owner
            == owner implies ids.contains(i as u64) by {
            if i < n {
                assert(front[i].owner == owner);
                assert(rest.contains(i as u64));
                let k = choose|k: int| 0 <= k < rest.len() && rest[k] == i as u64;
                assert(ids[k] == i as u64);
            } else {
                assert(ids[rest.len() as int] == i as u64);
            }
        }
        assert forall|k: int| 0 <= k < ids.len() implies (#[trigger] ids[k]) < tokens.len()
            && tokens[ids[k] as int].owner == owner by {
            if k < rest.len() {
                assert(ids[k] == rest[k]);
                assert(front[rest[k] as int] == tokens[rest[k] as int]);
            }
        }
        if forall|i: int| 0 <= i < tokens.len() ==> (#[trigger] tokens[i]).owner != owner {
            assert forall|i: int| 0 <= i < front.len() implies (#[trigger] front[i]).owner
                != owner by {
                assert(tokens[i].owner != owner);
            }
            assert(tokens[n].owner != owner);
        }
    }
}

/// Whatever calls are made, in whatever order, the granted mints return the
/// next free identifiers one after another, without gap or repeat, and the
/// number of tokens grows by the number of granted mints: refused mints and
/// calls of other kinds add none. From a new ledger the identifiers are
/// 0, 1, 2, ... and the number of tokens is the number of granted mints.
pub proof fn law_identifiers_are_consecutive(s: LedgerModel, requests: Seq<Request>)
    requires
        s.tokens.len() + requests.len() <= u64::MAX,
    ensures
        granted(s, requests).len() <= requests.len(),
        run(s, requests).tokens.len() == s.tokens.len() + granted(s, requests).len(),
        forall|k: int|
            0 <= k < granted(s, requests).len() ==> (#[trigger] granted(s, requests)[k])
                == s.tokens.len() + k,
    decreases requests.len(),
{
    if requests.len() > 0 {
        law_identifiers_are_consecutive(s, requests.drop_last());
    }
}

/// Whatever calls are made, the ledger never holds two tokens of one
/// project, and the tokens it held stay as they were, under the identifiers
/// they had.
pub proof fn law_tokens_are_kept(s: LedgerModel, requests: Seq<Request>)
    requires
        s.inv(),
        s.tokens.len() + requests.len() <= u64::MAX,
    ensures
        run(s, requests).inv(),
        s.tokens.len() <= run(s, requests).tokens.len() <= s.tokens.len() + requests.len(),
        forall|i: int| 0 <= i < s.tokens.len() ==> run(s, requests).tokens[i] == s.tokens[i],
    decreases requests.len(),
{
    if requests.len() > 0 {
        let before = run(s, requests.drop_last());
        law_tokens_are_kept(s, requests.drop_last());
        match requests.last() {
            Request::Mint(mint) => {
                law_mint_keeps_invariant(before, mint);
            },
            _ => {},
        }
    }
}

/// Publishing is granted to every caller who is allowed to publish, adds one
/// to the count of publications each time, also for a project published
/// before, and leaves every token, project entry and owner list as it was.
pub proof fn law_publish_counts_every_call(
    s: LedgerModel,
    caller: Seq<u8>,
    again: Seq<u8>,
    project: Seq<u8>,
)
    requires
        s.authorized(caller),
        s.authorized(again),
        s.published + 2 <= u64::MAX,
    ensures
        s.publish_result(caller) == Ok::<(), Error>(()),
        s.after_publish(caller, project).published == s.published + 1,
        s.after_publish(caller, project).tokens == s.tokens,
        s.after_publish(caller, project).after_publish(again, project).published == s.published
            + 2,
        s.after_publish(caller, project).after_publish(again, project).tokens == s.tokens,
{
}

} // verus!
