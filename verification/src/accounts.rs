//! The accounts that a staking instruction is given, and the rules that tie them together.

use crate::address::{
    bump_search, bumped, create_program_address, find_program_address, optional_bumped_key,
    optional_key, program_address, seeds, seeds_of, seeds_with_bump, Pubkey, CONFIG_SEED,
    MPL_CORE_ID, REWARDS_MINT_SEED, SYSTEM_PROGRAM_ID, UPDATE_AUTHORITY_SEED,
};
use crate::error::ErrorCode;
use crate::plugins::{
    asset_record, collection_record, optional_asset, optional_collection, read_asset,
    read_collection, AssetRecord, AssetRecordView, CollectionRecord, CollectionRecordView,
    UpdateAuthority, UpdateAuthorityView,
};
use crate::state::Config;
use vstd::prelude::*;

verus! {

/// An account as an instruction finds it.
#[derive(Debug, PartialEq, Eq)]
pub struct Account {
    pub key: Pubkey,
    /// The program that owns the account.
    pub program: Pubkey,
    /// The balance of the account.
    pub lamports: u64,
    pub data: Vec<u8>,
}

/// The accounts of an instruction that pays out rewards.
#[derive(Debug, PartialEq, Eq)]
pub struct StakingAccounts {
    /// The staking program itself.
    pub program_id: Pubkey,
    /// The signer, who claims to own the asset.
    pub owner: Pubkey,
    pub config_key: Pubkey,
    pub config: Config,
    pub asset: Account,
    pub collection: Account,
    /// The account in whose name the asset and the collection are updated.
    pub update_authority: Pubkey,
    /// The mint of the reward token.
    pub rewards_mint: Pubkey,
    /// The number of decimals of the reward token.
    pub decimals: u8,
    /// The program that is called to update the asset and the collection.
    pub mpl_core_program: Pubkey,
}

/// What the rules on accounts are judged by: the base records of asset and collection, and the
/// addresses that the seeds derive.
#[derive(Clone, Copy, Debug, PartialEq, Eq)]
pub struct Findings {
    pub asset: Option<AssetRecord>,
    pub collection: Option<CollectionRecord>,
    /// The address of the configuration of the collection.
    pub config: Option<Pubkey>,
    /// The address of the update authority of the collection, with its bump seed.
    pub update_authority: Option<(Pubkey, u8)>,
    /// The address of the mint of the configuration.
    pub rewards_mint: Option<Pubkey>,
}

/// What [`Findings`] say.
pub struct FindingsView {
    pub asset: Option<AssetRecordView>,
    pub collection: Option<CollectionRecordView>,
    pub config: Option<Seq<u8>>,
    pub update_authority: Option<(Seq<u8>, u8)>,
    pub rewards_mint: Option<Seq<u8>>,
}

impl View for Findings {
    type V = FindingsView;

    open spec fn view(&self) -> FindingsView {
        FindingsView {
            asset: optional_asset(self.asset),
            collection: optional_collection(self.collection),
            config: optional_key(self.config),
            update_authority: optional_bumped_key(self.update_authority),
            rewards_mint: optional_key(self.rewards_mint),
        }
    }
}

/// The seeds of the configuration of a collection.
pub open spec fn config_seeds(collection: Seq<u8>, bump: u8) -> Seq<Seq<u8>> {
    bumped(seeds_of(CONFIG_SEED@, collection), bump)
}

/// The seeds of the update authority of a collection.
pub open spec fn authority_seeds(collection: Seq<u8>, bump: u8) -> Seq<Seq<u8>> {
    bumped(seeds_of(UPDATE_AUTHORITY_SEED@, collection), bump)
}

/// The seeds of the mint of a configuration.
pub open spec fn mint_seeds(config: Seq<u8>, bump: u8) -> Seq<Seq<u8>> {
    bumped(seeds_of(REWARDS_MINT_SEED@, config), bump)
}

/// What there is to find out about the accounts.
pub open spec fn findings_on(accounts: &StakingAccounts) -> FindingsView {
    FindingsView {
        asset: asset_record(accounts.asset.data@),
        collection: collection_record(accounts.collection.data@),
        config: program_address(
            config_seeds(accounts.collection.key@, accounts.config.bump),
            accounts.program_id@,
        ),
        update_authority: bump_search(
            seeds_of(UPDATE_AUTHORITY_SEED@, accounts.collection.key@),
            accounts.program_id@,
            255,
        ),
        rewards_mint: program_address(
            mint_seeds(accounts.config_key@, accounts.config.rewards_bump),
            accounts.program_id@,
        ),
    }
}

/// Why an account cannot be one of the asset program: it does not exist, or it belongs to
/// another program.
pub open spec fn foreign(account: Account) -> Option<ErrorCode> {
    if account.program@ == SYSTEM_PROGRAM_ID@ && account.lamports == 0 {
        Some(ErrorCode::AccountNotInitialized)
    } else if account.program@ != MPL_CORE_ID@ {
        Some(ErrorCode::AccountOwnedByWrongProgram)
    } else {
        None
    }
}

/// The rules on accounts, in the order in which they are applied. Accounts that keep them all
/// give the bump seed of the update authority. Where no bump seed derives an update authority,
/// and no earlier rule is broken, there is no answer.
pub open spec fn verdict(accounts: &StakingAccounts, findings: FindingsView) -> Option<
    Result<u8, ErrorCode>,
> {
    if foreign(accounts.asset) is Some {
        Some(Err(foreign(accounts.asset)->0))
    } else if findings.asset is None {
        Some(Err(ErrorCode::BorshIoError))
    } else if foreign(accounts.collection) is Some {
        Some(Err(foreign(accounts.collection)->0))
    } else if findings.collection is None {
        Some(Err(ErrorCode::BorshIoError))
    } else if findings.config != Some(accounts.config_key@) {
        Some(Err(ErrorCode::ConstraintSeeds))
    } else if findings.asset->0.owner != accounts.owner@ {
        Some(Err(ErrorCode::InvalidOwner))
    } else if findings.asset->0.update_authority != UpdateAuthorityView::Collection(
        accounts.collection.key@,
    ) {
        Some(Err(ErrorCode::InvalidUpdateAuthority))
    } else if findings.collection->0.update_authority != accounts.update_authority@ {
        Some(Err(ErrorCode::InvalidUpdateAuthority))
    } else {
        match findings.update_authority {
            Some((authority, bump)) => Some(
                if authority != accounts.update_authority@ {
                    Err(ErrorCode::ConstraintSeeds)
                } else if findings.rewards_mint != Some(accounts.rewards_mint@) {
                    Err(ErrorCode::ConstraintSeeds)
                } else if accounts.mpl_core_program@ != MPL_CORE_ID@ {
                    Err(ErrorCode::ConstraintAddress)
                } else {
                    Ok(bump)
                },
            ),
            None => None,
        }
    }
}

/// The verdict on the accounts, by all that there is to find out about them.
pub open spec fn accounts_verdict(accounts: &StakingAccounts) -> Option<Result<u8, ErrorCode>> {
    verdict(accounts, findings_on(accounts))
}

/// Whether an optional address is `key`.
fn is_key(found: &Option<Pubkey>, key: &Pubkey) -> (r: bool)
    ensures
        r == (optional_key(*found) == Some(key@)),
{
    match found {
        Some(k) => k.is(key),
        None => false,
    }
}

/// Why an account cannot be one of the asset program.
fn check_program(account: &Account) -> (r: Option<ErrorCode>)
    ensures
        r == foreign(*account),
{
    let system: Pubkey = Pubkey { bytes: SYSTEM_PROGRAM_ID };
    let core: Pubkey = Pubkey { bytes: MPL_CORE_ID };
    if account.program.is(&system) && account.lamports == 0 {
        Some(ErrorCode::AccountNotInitialized)
    } else if !account.program.is(&core) {
        Some(ErrorCode::AccountOwnedByWrongProgram)
    } else {
        None
    }
}

/// Judges the accounts by what was found out about them.
pub fn judge(accounts: &StakingAccounts, findings: &Findings) -> (r: Option<Result<u8, ErrorCode>>)
    ensures
        r == verdict(accounts, findings@),
{
    let core: Pubkey = Pubkey { bytes: MPL_CORE_ID };
    match check_program(&accounts.asset) {
        Some(e) => return Some(Err(e)),
        None => {},
    }
    let asset: AssetRecord = match findings.asset {
        Some(asset) => asset,
        None => return Some(Err(ErrorCode::BorshIoError)),
    };
    match check_program(&accounts.collection) {
        Some(e) => return Some(Err(e)),
        None => {},
    }
    let collection: CollectionRecord = match findings.collection {
        Some(collection) => collection,
        None => return Some(Err(ErrorCode::BorshIoError)),
    };
    if !is_key(&findings.config, &accounts.config_key) {
        return Some(Err(ErrorCode::ConstraintSeeds));
    }
    if !asset.owner.is(&accounts.owner) {
        return Some(Err(ErrorCode::InvalidOwner));
    }
    let in_collection: bool = match asset.update_authority {
        UpdateAuthority::Collection(key) => key.is(&accounts.collection.key),
        _ => false,
    };
    if !in_collection {
        return Some(Err(ErrorCode::InvalidUpdateAuthority));
    }
    if !collection.update_authority.is(&accounts.update_authority) {
        return Some(Err(ErrorCode::InvalidUpdateAuthority));
    }
    match findings.update_authority {
        Some((authority, bump)) => {
            if !authority.is(&accounts.update_authority) {
                Some(Err(ErrorCode::ConstraintSeeds))
            } else if !is_key(&findings.rewards_mint, &accounts.rewards_mint) {
                Some(Err(ErrorCode::ConstraintSeeds))
            } else if !accounts.mpl_core_program.is(&core) {
                Some(Err(ErrorCode::ConstraintAddress))
            } else {
                Some(Ok(bump))
            }
        },
        None => None,
    }
}

/// Finds out what the rules on accounts are judged by.
pub fn examine(accounts: &StakingAccounts) -> (r: Findings)
    ensures
        r@ == findings_on(accounts),
{
    let program_id: &Pubkey = &accounts.program_id;
    let collection: &Pubkey = &accounts.collection.key;
    let config: Vec<Vec<u8>> = seeds_with_bump(
        CONFIG_SEED.as_slice(),
        collection,
        accounts.config.bump,
    );
    let authority: Vec<Vec<u8>> = seeds(UPDATE_AUTHORITY_SEED.as_slice(), collection);
    let mint: Vec<Vec<u8>> = seeds_with_bump(
        REWARDS_MINT_SEED.as_slice(),
        &accounts.config_key,
        accounts.config.rewards_bump,
    );
    Findings {
        asset: read_asset(accounts.asset.data.as_slice()),
        collection: read_collection(accounts.collection.data.as_slice()),
        config: create_program_address(&config, program_id),
        update_authority: find_program_address(&authority, program_id),
        rewards_mint: create_program_address(&mint, program_id),
    }
}

/// Applies the rules on accounts. Accounts that keep them all give the bump seed of the update
/// authority; `None` where no bump seed derives one.
pub fn check_accounts(accounts: &StakingAccounts) -> (r: Option<Result<u8, ErrorCode>>)
    ensures
        r == accounts_verdict(accounts),
{
    judge(accounts, &examine(accounts))
}

} // verus!
