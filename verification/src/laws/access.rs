//! Laws of who may do what.

use crate::accounts::{
    accounts_verdict, authority_seeds, config_seeds, findings_on, mint_seeds, verdict,
    FindingsView, StakingAccounts,
};
use crate::action::ActionView;
use crate::address::{
    bump_search, bumped, program_address, seeds_of, CONFIG_SEED, MPL_CORE_ID, REWARDS_MINT_SEED,
    SYSTEM_PROGRAM_ID, UPDATE_AUTHORITY_SEED,
};
use crate::error::ErrorCode;
use crate::instructions::claim_rewards::{claim_step, ClaimRewards, ClaimStateView};
use crate::instructions::unstake::{unstake_step, Unstake, UnstakeState};
use crate::laws::vocabulary::{authority_signer, config_signer, mint_signer};
use crate::plugins::{asset_record, collection_record, UpdateAuthorityView};
use vstd::prelude::*;

verus! {

/// Whether the accounts belong together: asset and collection are the asset program's, the
/// signer owns the asset, the asset is part of the
/// collection, the collection is under the update authority, and the program's own accounts are
/// where their seeds put them.
pub open spec fn authorized(accounts: &StakingAccounts) -> bool {
    let program_id = accounts.program_id@;
    let collection = accounts.collection.key@;
    &&& accounts.asset.program@ == MPL_CORE_ID@
    &&& asset_record(accounts.asset.data@) matches Some(asset)
    &&& asset.owner == accounts.owner@
    &&& asset.update_authority == UpdateAuthorityView::Collection(collection)
    &&& accounts.collection.program@ == MPL_CORE_ID@
    &&& collection_record(accounts.collection.data@) matches Some(record)
    &&& record.update_authority == accounts.update_authority@
    &&& program_address(config_seeds(collection, accounts.config.bump), program_id) == Some(
        accounts.config_key@,
    )
    &&& program_address(
        mint_seeds(accounts.config_key@, accounts.config.rewards_bump),
        program_id,
    ) == Some(accounts.rewards_mint@)
    &&& accounts.mpl_core_program@ == MPL_CORE_ID@
}

/// Accounts that keep the rules belong together, and the bump seed that they give derives the
/// update authority; no larger one derives any address.
pub proof fn accepted_accounts_are_authorized(accounts: &StakingAccounts)
    requires
        accounts_verdict(accounts) is Some,
        accounts_verdict(accounts)->0 is Ok,
    ensures
        authorized(accounts),
        ({
            let bump = accounts_verdict(accounts)->0->Ok_0;
            let collection = accounts.collection.key@;
            &&& program_address(authority_seeds(collection, bump), accounts.program_id@) == Some(
                accounts.update_authority@,
            )
            &&& forall|larger: u8|
                larger > bump ==> #[trigger] program_address(
                    authority_seeds(collection, larger),
                    accounts.program_id@,
                ) is None
        }),
{
    lemma_bump_search(
        seeds_of(UPDATE_AUTHORITY_SEED@, accounts.collection.key@),
        accounts.program_id@,
        255,
    );
}

/// Nothing is done for accounts that do not belong together: a claim that takes a first step is
/// authorized.
pub proof fn claims_are_authorized(ctx: &ClaimRewards, now: i64)
    requires
        claim_step(ctx, now, ClaimStateView::Start) is Some,
        claim_step(ctx, now, ClaimStateView::Start)->0 is Ok,
    ensures
        authorized(&ctx.accounts),
{
    accepted_accounts_are_authorized(&ctx.accounts);
}

/// Nothing is done for accounts that do not belong together: an unstaking that takes a first
/// step is authorized.
pub proof fn unstakings_are_authorized(ctx: &Unstake, now: i64)
    requires
        unstake_step(ctx, now, UnstakeState::Start) is Some,
        unstake_step(ctx, now, UnstakeState::Start)->0 is Ok,
    ensures
        authorized(&ctx.accounts),
{
    accepted_accounts_are_authorized(&ctx.accounts);
}

/// A signer who does not own the asset is told so, in accounts whose configuration is the
/// collection's.
pub proof fn strangers_are_refused(accounts: &StakingAccounts)
    requires
        accounts.asset.program@ == MPL_CORE_ID@,
        accounts.collection.program@ == MPL_CORE_ID@,
        asset_record(accounts.asset.data@) is Some,
        collection_record(accounts.collection.data@) is Some,
        program_address(
            config_seeds(accounts.collection.key@, accounts.config.bump),
            accounts.program_id@,
        ) == Some(accounts.config_key@),
        asset_record(accounts.asset.data@)->0.owner != accounts.owner@,
    ensures
        accounts_verdict(accounts) == Some(Err::<u8, ErrorCode>(ErrorCode::InvalidOwner)),
{
}

/// A claim mints in the name of the configuration account: the seeds of its call derive it.
/// Once minted, it updates the asset in the name of the update authority.
pub proof fn claims_sign_as_they_must(ctx: &ClaimRewards, now: i64)
    requires
        claim_step(ctx, now, ClaimStateView::Start) is Some,
        claim_step(ctx, now, ClaimStateView::Start)->0 is Ok,
    ensures
        ({
            let (next, action) = claim_step(ctx, now, ClaimStateView::Start)->0->Ok_0;
            let program_id = ctx.accounts.program_id@;
            &&& action matches ActionView::MintRewards { signer, .. } ==> program_address(
                signer,
                program_id,
            ) == Some(ctx.accounts.config_key@)
            &&& claim_step(ctx, now, next) matches Some(Ok((
                _,
                ActionView::UpdateAssetAttributes { signer, .. },
            ))) ==> program_address(signer, program_id) == Some(ctx.accounts.update_authority@)
        }),
{
    accepted_accounts_are_authorized(&ctx.accounts);
}

/// Whether a state of an unstaking carries the bump seed of the update authority.
pub open spec fn carries_bump(accounts: &StakingAccounts, state: UnstakeState) -> bool {
    match state {
        UnstakeState::Cleared { authority_bump, .. } => accounts_verdict(accounts) == Some(
            Ok::<u8, ErrorCode>(authority_bump),
        ),
        UnstakeState::Thawed { authority_bump, .. } => accounts_verdict(accounts) == Some(
            Ok::<u8, ErrorCode>(authority_bump),
        ),
        _ => true,
    }
}

/// An unstaking keeps the bump seed of the update authority from step to step, and updates and
/// thaws in the name of that authority.
pub proof fn unstakings_sign_as_they_must(ctx: &Unstake, now: i64, state: UnstakeState)
    requires
        carries_bump(&ctx.accounts, state),
        unstake_step(ctx, now, state) is Some,
        unstake_step(ctx, now, state)->0 is Ok,
    ensures
        ({
            let (next, action) = unstake_step(ctx, now, state)->0->Ok_0;
            let program_id = ctx.accounts.program_id@;
            let authority = Some(ctx.accounts.update_authority@);
            &&& carries_bump(&ctx.accounts, next)
            &&& action matches ActionView::UpdateAssetAttributes { signer, .. } ==> program_address(
                signer,
                program_id,
            ) == authority
            &&& action matches ActionView::UpdateCollectionAttributes { signer, .. }
                ==> program_address(signer, program_id) == authority
            &&& action matches ActionView::ThawAsset { signer } ==> program_address(
                signer,
                program_id,
            ) == authority
        }),
{
    if !(state is Finished || state is Counted) {
        accepted_accounts_are_authorized(&ctx.accounts);
    }
}

/// What the accounts are judged by: the base records in their data, and the addresses that the
/// program derives from the text `config` and the collection, from the text `rewards_mint` and
/// the configuration, and from the text `update_authority` and the collection. The last one has
/// the largest bump seed that derives an address; it is missing where none does.
pub proof fn accounts_are_looked_into(accounts: &StakingAccounts)
    ensures
        ({
            let found = findings_on(accounts);
            let program_id = accounts.program_id@;
            let collection = accounts.collection.key@;
            &&& found.asset == asset_record(accounts.asset.data@)
            &&& found.collection == collection_record(accounts.collection.data@)
            &&& found.config == program_address(
                config_signer(collection, accounts.config.bump),
                program_id,
            )
            &&& found.rewards_mint == program_address(
                mint_signer(accounts.config_key@, accounts.config.rewards_bump),
                program_id,
            )
            &&& match found.update_authority {
                Some((address, bump)) => {
                    &&& bump > 0
                    &&& program_address(authority_signer(collection, bump), program_id) == Some(
                        address,
                    )
                    &&& forall|larger: u8|
                        bump < larger ==> #[trigger] program_address(
                            authority_signer(collection, larger),
                            program_id,
                        ) is None
                },
                None => forall|bump: u8|
                    0 < bump ==> #[trigger] program_address(
                        authority_signer(collection, bump),
                        program_id,
                    ) is None,
            }
        }),
{
    let collection = accounts.collection.key@;
    seeds_of_config_are(collection, accounts.config.bump);
    seeds_of_mint_are(accounts.config_key@, accounts.config.rewards_bump);
    let seeds = seeds_of(UPDATE_AUTHORITY_SEED@, collection);
    lemma_bump_search(seeds, accounts.program_id@, 255);
    assert forall|bump: u8| bumped(seeds, bump) == #[trigger] authority_signer(
        collection,
        bump,
    ) by {
        seeds_of_authority_are(collection, bump);
    }
}

/// The rules on accounts, whatever was found out about them: each one is answered with its own
/// error, the first broken one decides, and accounts that keep them all are accepted with the
/// bump seed of the update authority.
pub proof fn the_first_broken_rule_decides(accounts: &StakingAccounts, found: FindingsView)
    ensures
        ({
            let answer = verdict(accounts, found);
            let asset = accounts.asset;
            let collection = accounts.collection;
            let asset_there = asset.program@ != SYSTEM_PROGRAM_ID@ || asset.lamports > 0;
            let asset_owned = asset_there && asset.program@ == MPL_CORE_ID@;
            let asset_read = asset_owned && found.asset is Some;
            let there = asset_read && (collection.program@ != SYSTEM_PROGRAM_ID@
                || collection.lamports > 0);
            let owned = there && collection.program@ == MPL_CORE_ID@;
            let read = owned && found.collection is Some;
            let configured = read && found.config == Some(accounts.config_key@);
            let signed = configured && found.asset->0.owner == accounts.owner@;
            let member = signed && found.asset->0.update_authority
                == UpdateAuthorityView::Collection(collection.key@);
            let governed = member && found.collection->0.update_authority
                == accounts.update_authority@;
            let derivable = governed && found.update_authority is Some;
            let (authority, bump) = found.update_authority->0;
            let derived = derivable && authority == accounts.update_authority@;
            let minting = derived && found.rewards_mint == Some(accounts.rewards_mint@);
            let addressed = minting && accounts.mpl_core_program@ == MPL_CORE_ID@;
            &&& !asset_there ==> refused(answer, ErrorCode::AccountNotInitialized)
            &&& asset_there && !asset_owned ==> refused(
                answer,
                ErrorCode::AccountOwnedByWrongProgram,
            )
            &&& asset_owned && !asset_read ==> refused(answer, ErrorCode::BorshIoError)
            &&& asset_read && !there ==> refused(answer, ErrorCode::AccountNotInitialized)
            &&& there && !owned ==> refused(answer, ErrorCode::AccountOwnedByWrongProgram)
            &&& owned && !read ==> refused(answer, ErrorCode::BorshIoError)
            &&& read && !configured ==> refused(answer, ErrorCode::ConstraintSeeds)
            &&& configured && !signed ==> refused(answer, ErrorCode::InvalidOwner)
            &&& signed && !member ==> refused(answer, ErrorCode::InvalidUpdateAuthority)
            &&& member && !governed ==> refused(answer, ErrorCode::InvalidUpdateAuthority)
            &&& governed && !derivable ==> answer is None
            &&& derivable && !derived ==> refused(answer, ErrorCode::ConstraintSeeds)
            &&& derived && !minting ==> refused(answer, ErrorCode::ConstraintSeeds)
            &&& minting && !addressed ==> refused(answer, ErrorCode::ConstraintAddress)
            &&& addressed ==> answer == Some(Ok::<u8, ErrorCode>(bump))
        }),
{
}

/// Whether accounts are refused for this reason.
pub open spec fn refused(answer: Option<Result<u8, ErrorCode>>, e: ErrorCode) -> bool {
    answer == Some(Err::<u8, ErrorCode>(e))
}

/// The verdict on accounts is the one by what is found in them.
pub proof fn the_verdict_goes_by_the_findings(accounts: &StakingAccounts)
    ensures
        accounts_verdict(accounts) == verdict(accounts, findings_on(accounts)),
{
}

/// Accounts that belong together are accepted, with the largest bump seed that derives an
/// address for the update authority, if that address is the authority's.
pub proof fn authorized_accounts_are_accepted(accounts: &StakingAccounts, bump: u8)
    requires
        authorized(accounts),
        bump > 0,
        program_address(
            authority_signer(accounts.collection.key@, bump),
            accounts.program_id@,
        ) == Some(accounts.update_authority@),
        forall|larger: u8|
            bump < larger ==> #[trigger] program_address(
                authority_signer(accounts.collection.key@, larger),
                accounts.program_id@,
            ) is None,
    ensures
        accounts_verdict(accounts) == Some(Ok::<u8, ErrorCode>(bump)),
{
    accounts_are_looked_into(accounts);
    the_first_broken_rule_decides(accounts, findings_on(accounts));
    seeds_of_config_are(accounts.collection.key@, accounts.config.bump);
    seeds_of_mint_are(accounts.config_key@, accounts.config.rewards_bump);
}

/// The seeds of a configuration, spelled out.
pub proof fn seeds_of_config_are(collection: Seq<u8>, bump: u8)
    ensures
        config_seeds(collection, bump) == config_signer(collection, bump),
{
    assert(CONFIG_SEED@ =~= config_signer(collection, bump)[0]);
    assert(config_seeds(collection, bump) =~= config_signer(collection, bump));
}

/// The seeds of an update authority, spelled out.
pub proof fn seeds_of_authority_are(collection: Seq<u8>, bump: u8)
    ensures
        authority_seeds(collection, bump) == authority_signer(collection, bump),
{
    assert(UPDATE_AUTHORITY_SEED@ =~= authority_signer(collection, bump)[0]);
    assert(authority_seeds(collection, bump) =~= authority_signer(collection, bump));
}

/// The seeds of a mint, spelled out.
pub proof fn seeds_of_mint_are(config: Seq<u8>, bump: u8)
    ensures
        mint_seeds(config, bump) == mint_signer(config, bump),
{
    assert(REWARDS_MINT_SEED@ =~= mint_signer(config, bump)[0]);
    assert(mint_seeds(config, bump) =~= mint_signer(config, bump));
}

/// A search for a bump seed gives the largest one that derives an address.
proof fn lemma_bump_search(seeds: Seq<Seq<u8>>, program_id: Seq<u8>, limit: u8)
    ensures
        match bump_search(seeds, program_id, limit) {
            Some((address, bump)) => {
                &&& 0 < bump <= limit
                &&& program_address(bumped(seeds, bump), program_id) == Some(address)
                &&& forall|larger: u8|
                    bump < larger <= limit ==> #[trigger] program_address(
                        bumped(seeds, larger),
                        program_id,
                    ) is None
            },
            None => forall|bump: u8|
                0 < bump <= limit ==> #[trigger] program_address(bumped(seeds, bump), program_id)
                    is None,
        },
    decreases limit,
{
    if limit > 0 && program_address(bumped(seeds, limit), program_id) is None {
        lemma_bump_search(seeds, program_id, (limit - 1) as u8);
    }
}

} // verus!
