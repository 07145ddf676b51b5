use anchor_lang::prelude::{AnchorSerialize, Pubkey as Address};
use core_staking::accounts::{
    check_accounts, examine, judge, Account, Findings, StakingAccounts,
};
use core_staking::action::Action;
use core_staking::address::{
    Pubkey, CONFIG_SEED, MPL_CORE_ID, REWARDS_MINT_SEED, SYSTEM_PROGRAM_ID, UPDATE_AUTHORITY_SEED,
};
use core_staking::attributes::{Attribute, Attributes};
use core_staking::error::ErrorCode;
use core_staking::instructions::claim_rewards::{self, ClaimRewards, ClaimState, ClaimTerms};
use core_staking::instructions::unstake::{self, Unstake, UnstakeState};
use core_staking::plugins::{
    attributes_of_asset, attributes_of_collection, UpdateAuthority, ASSET_KEY, ATTRIBUTES_PLUGIN,
    COLLECTION_KEY, RECORD_KINDS,
};
use core_staking::state::Config;
use mpl_core::accounts::{BaseAssetV1, BaseCollectionV1, PluginHeaderV1, PluginRegistryV1};
use mpl_core::types::{Key, Plugin, PluginAuthority, PluginType, RegistryRecord};

const DAY: i64 = 86400;
const START: i64 = 1_700_000_000;

fn key(address: &Address) -> Pubkey {
    Pubkey { bytes: address.to_bytes() }
}

fn address(n: u8) -> Address {
    Address::new_from_array([n; 32])
}

fn attributes(pairs: &[(&str, &str)]) -> Attributes {
    Attributes {
        attribute_list: pairs
            .iter()
            .map(|(key, value)| Attribute { key: key.to_string(), value: value.to_string() })
            .collect(),
    }
}

fn plugin(pairs: &[(&str, &str)]) -> Plugin {
    Plugin::Attributes(mpl_core::types::Attributes {
        attribute_list: pairs
            .iter()
            .map(|(key, value)| mpl_core::types::Attribute {
                key: key.to_string(),
                value: value.to_string(),
            })
            .collect(),
    })
}

/// A base record, followed by a plugin header, the attributes plugin and the plugin registry.
fn with_plugin(base: Vec<u8>, pairs: &[(&str, &str)]) -> Vec<u8> {
    let offset = base.len() + PluginHeaderV1::LEN;
    let body = plugin(pairs).try_to_vec().unwrap();
    let header = PluginHeaderV1 {
        key: Key::PluginHeaderV1,
        plugin_registry_offset: (offset + body.len()) as u64,
    };
    let registry = PluginRegistryV1 {
        key: Key::PluginRegistryV1,
        registry: vec![RegistryRecord {
            plugin_type: PluginType::Attributes,
            authority: PluginAuthority::UpdateAuthority,
            offset: offset as u64,
        }],
        external_registry: vec![],
    };
    let mut data = base;
    data.extend(header.try_to_vec().unwrap());
    data.extend(body);
    data.extend(registry.try_to_vec().unwrap());
    data
}

fn asset_base(owner: &Address, collection: &Address) -> Vec<u8> {
    BaseAssetV1 {
        key: Key::AssetV1,
        owner: *owner,
        update_authority: mpl_core::types::UpdateAuthority::Collection(*collection),
        name: "asset".to_string(),
        uri: "uri".to_string(),
        seq: Some(3),
    }
    .try_to_vec()
    .unwrap()
}

fn collection_base(update_authority: &Address) -> Vec<u8> {
    BaseCollectionV1 {
        key: Key::CollectionV1,
        update_authority: *update_authority,
        name: "collection".to_string(),
        uri: "".to_string(),
        num_minted: 1,
        current_size: 1,
    }
    .try_to_vec()
    .unwrap()
}

const STAKED: [(&str, &str); 4] = [
    ("level", "7"),
    ("staked", "true"),
    ("staked_at", "1700000000"),
    ("last_claimed_at", "1700000000"),
];

/// Accounts that belong together, and the bump seed of their update authority.
fn accounts(
    asset: Option<&[(&str, &str)]>,
    collection: Option<&[(&str, &str)]>,
) -> (StakingAccounts, u8) {
    let program_id = address(9);
    let owner = address(1);
    let asset_key = address(2);
    let collection_key = address(3);
    let (config_key, bump) =
        Address::find_program_address(&[b"config", collection_key.as_ref()], &program_id);
    let (authority, authority_bump) =
        Address::find_program_address(&[b"update_authority", collection_key.as_ref()], &program_id);
    let (mint, rewards_bump) =
        Address::find_program_address(&[b"rewards_mint", config_key.as_ref()], &program_id);
    let asset_data = asset_base(&owner, &collection_key);
    let collection_data = collection_base(&authority);
    let staking = StakingAccounts {
        program_id: key(&program_id),
        owner: key(&owner),
        config_key: key(&config_key),
        config: Config { rewards_bps: 500, freeze_period: 2, rewards_bump, bump },
        asset: Account {
            key: key(&asset_key),
            program: key(&mpl_core::ID),
            lamports: 3_000_000,
            data: match asset {
                Some(pairs) => with_plugin(asset_data, pairs),
                None => asset_data,
            },
        },
        collection: Account {
            key: key(&collection_key),
            program: key(&mpl_core::ID),
            lamports: 3_000_000,
            data: match collection {
                Some(pairs) => with_plugin(collection_data, pairs),
                None => collection_data,
            },
        },
        update_authority: key(&authority),
        rewards_mint: key(&mint),
        decimals: 6,
        mpl_core_program: key(&mpl_core::ID),
    };
    (staking, authority_bump)
}

fn config_signer(staking: &StakingAccounts) -> Vec<Vec<u8>> {
    vec![
        b"config".to_vec(),
        staking.collection.key.bytes.to_vec(),
        vec![staking.config.bump],
    ]
}

fn authority_signer(staking: &StakingAccounts, bump: u8) -> Vec<Vec<u8>> {
    vec![
        b"update_authority".to_vec(),
        staking.collection.key.bytes.to_vec(),
        vec![bump],
    ]
}

fn derived(seeds: &[Vec<u8>], program_id: &Pubkey) -> Pubkey {
    let parts: Vec<&[u8]> = seeds.iter().map(|seed| seed.as_slice()).collect();
    let program = Address::new_from_array(program_id.bytes);
    key(&Address::create_program_address(&parts, &program).unwrap())
}

#[test]
fn constants_are_those_of_the_programs() {
    assert_eq!(MPL_CORE_ID, mpl_core::ID.to_bytes());
    assert_eq!(&CONFIG_SEED, b"config");
    assert_eq!(&UPDATE_AUTHORITY_SEED, b"update_authority");
    assert_eq!(&REWARDS_MINT_SEED, b"rewards_mint");
    assert_eq!(ATTRIBUTES_PLUGIN, PluginType::Attributes as u8);
    assert_eq!(ASSET_KEY, Key::AssetV1 as u8);
    assert_eq!(COLLECTION_KEY, Key::CollectionV1 as u8);
}

#[test]
fn attributes_are_read_from_accounts() {
    let program = key(&mpl_core::ID);
    let (staking, _) = accounts(Some(&STAKED), Some(&[("total_staked", "4")]));
    assert_eq!(
        attributes_of_asset(&program, &staking.asset.data),
        Some(Some(attributes(&STAKED)))
    );
    assert_eq!(
        attributes_of_collection(&program, &staking.collection.data),
        Some(Some(attributes(&[("total_staked", "4")])))
    );
}

#[test]
fn an_account_without_attributes_has_none() {
    let program = key(&mpl_core::ID);
    let (staking, _) = accounts(None, None);
    assert_eq!(attributes_of_asset(&program, &staking.asset.data), Some(None));
    assert_eq!(attributes_of_collection(&program, &staking.collection.data), Some(None));
    assert_eq!(attributes_of_asset(&program, &[]), Some(None));
}

#[test]
fn an_account_of_another_program_or_kind_has_no_attributes() {
    let (staking, _) = accounts(Some(&STAKED), Some(&[("total_staked", "4")]));
    let stranger = key(&address(77));
    let program = key(&mpl_core::ID);
    assert_eq!(attributes_of_asset(&stranger, &staking.asset.data), Some(None));
    assert_eq!(attributes_of_collection(&stranger, &staking.collection.data), Some(None));
    assert_eq!(attributes_of_asset(&program, &staking.collection.data), Some(None));
    assert_eq!(attributes_of_collection(&program, &staking.asset.data), Some(None));
}

#[test]
fn offsets_that_lead_out_of_an_account_are_noticed() {
    let program = key(&mpl_core::ID);
    let (staking, _) = accounts(Some(&STAKED), None);
    let base = asset_base(&address(1), &address(3)).len();
    let mut data = staking.asset.data;
    let size = data.len() as u64;
    let offset = base + 1..base + 9;
    data[offset.clone()].copy_from_slice(&(size + 1).to_le_bytes());
    assert_eq!(attributes_of_asset(&program, &data), None);
    data[offset].copy_from_slice(&size.to_le_bytes());
    assert_eq!(attributes_of_asset(&program, &data), Some(None));
}

#[test]
fn a_plugin_header_begins_with_the_number_of_a_kind() {
    let program = key(&mpl_core::ID);
    let (staking, _) = accounts(Some(&STAKED), None);
    let base = asset_base(&address(1), &address(3)).len();
    let mut data = staking.asset.data;
    let offset = base + 1..base + 9;
    data[offset].copy_from_slice(&u64::MAX.to_le_bytes());
    data[base] = RECORD_KINDS - 1;
    assert_eq!(attributes_of_asset(&program, &data), None);
    data[base] = RECORD_KINDS;
    assert_eq!(attributes_of_asset(&program, &data), Some(None));
    assert_eq!(Key::GroupV1 as u8 + 1, RECORD_KINDS);
}

#[test]
fn a_plugin_header_takes_nine_bytes() {
    let program = key(&mpl_core::ID);
    let mut data = asset_base(&address(1), &address(3));
    let base = data.len();
    data.push(Key::PluginHeaderV1 as u8);
    for (n, byte) in [0, 0, 0, 0, 0, 0, 0, 1].into_iter().enumerate() {
        assert_eq!(attributes_of_asset(&program, &data), Some(None));
        data.push(byte);
        assert_eq!(data.len(), base + n + 2);
    }
    assert_eq!(attributes_of_asset(&program, &data), None);
    data.push(0);
    assert_eq!(attributes_of_asset(&program, &data), None);
    data[base + 8] = 0;
    data[base + 1] = data.len() as u8;
    assert_eq!(attributes_of_asset(&program, &data), Some(None));
}

#[test]
fn a_plugin_that_lies_outside_of_an_account_is_noticed() {
    let program = key(&mpl_core::ID);
    let (staking, _) = accounts(None, Some(&[("total_staked", "4")]));
    let mut data = staking.collection.data;
    let size = data.len() as u64;
    // The registry ends with the offset of its only record and an empty external registry.
    let end = data.len() - 4;
    data[end - 8..end].copy_from_slice(&(size + 1).to_le_bytes());
    assert_eq!(attributes_of_collection(&program, &data), None);
    data[end - 8..end].copy_from_slice(&size.to_le_bytes());
    assert_eq!(attributes_of_collection(&program, &data), Some(None));
}

#[test]
fn accounts_that_belong_together_are_accepted() {
    let (staking, bump) = accounts(Some(&STAKED), None);
    assert_eq!(check_accounts(&staking), Some(Ok(bump)));
    let findings = examine(&staking);
    let asset = findings.asset.unwrap();
    assert_eq!(asset.owner, staking.owner);
    assert_eq!(asset.update_authority, UpdateAuthority::Collection(staking.collection.key));
    assert_eq!(asset.size, asset_base(&address(1), &address(3)).len());
    let collection = findings.collection.unwrap();
    assert_eq!(collection.update_authority, staking.update_authority);
    assert_eq!(findings.config, Some(staking.config_key));
    assert_eq!(findings.update_authority, Some((staking.update_authority, bump)));
    assert_eq!(findings.rewards_mint, Some(staking.rewards_mint));
}

#[test]
fn a_stranger_is_refused() {
    let (mut staking, _) = accounts(Some(&STAKED), None);
    staking.owner = key(&address(4));
    assert_eq!(check_accounts(&staking), Some(Err(ErrorCode::InvalidOwner)));
    let ctx = ClaimRewards { accounts: staking };
    assert_eq!(
        claim_rewards::handler(&ctx, START + DAY, ClaimState::Start),
        Some(Err(ErrorCode::InvalidOwner))
    );
    let ctx = Unstake { accounts: ctx.accounts };
    assert_eq!(
        unstake::handler(&ctx, START + DAY, UnstakeState::Start),
        Some(Err(ErrorCode::InvalidOwner))
    );
}

#[test]
fn accounts_at_other_addresses_are_refused() {
    let (mut staking, _) = accounts(Some(&STAKED), None);
    staking.config_key = key(&address(5));
    assert_eq!(check_accounts(&staking), Some(Err(ErrorCode::ConstraintSeeds)));

    let (mut staking, _) = accounts(Some(&STAKED), None);
    staking.rewards_mint = key(&address(5));
    assert_eq!(check_accounts(&staking), Some(Err(ErrorCode::ConstraintSeeds)));

    let (mut staking, _) = accounts(Some(&STAKED), None);
    staking.mpl_core_program = key(&address(5));
    assert_eq!(check_accounts(&staking), Some(Err(ErrorCode::ConstraintAddress)));
}

#[test]
fn an_update_authority_that_is_not_derived_is_refused() {
    let (mut staking, _) = accounts(Some(&STAKED), None);
    staking.update_authority = key(&address(5));
    assert_eq!(check_accounts(&staking), Some(Err(ErrorCode::InvalidUpdateAuthority)));
    staking.collection.data = collection_base(&address(5));
    assert_eq!(check_accounts(&staking), Some(Err(ErrorCode::ConstraintSeeds)));
}

#[test]
fn an_asset_of_another_collection_is_refused() {
    let (mut staking, _) = accounts(None, None);
    staking.asset.data = asset_base(&address(1), &address(8));
    assert_eq!(check_accounts(&staking), Some(Err(ErrorCode::InvalidUpdateAuthority)));
    let findings = examine(&staking);
    let mut asset = findings.asset.unwrap();
    asset.update_authority = UpdateAuthority::Address(staking.collection.key);
    let findings = Findings { asset: Some(asset), ..findings };
    assert_eq!(judge(&staking, &findings), Some(Err(ErrorCode::InvalidUpdateAuthority)));
    asset.update_authority = UpdateAuthority::Nobody;
    let findings = Findings { asset: Some(asset), ..findings };
    assert_eq!(judge(&staking, &findings), Some(Err(ErrorCode::InvalidUpdateAuthority)));
}

#[test]
fn other_update_authorities_are_told_apart() {
    let (mut staking, _) = accounts(None, None);
    for (theirs, ours) in [
        (mpl_core::types::UpdateAuthority::None, UpdateAuthority::Nobody),
        (
            mpl_core::types::UpdateAuthority::Address(address(6)),
            UpdateAuthority::Address(key(&address(6))),
        ),
    ] {
        staking.asset.data = BaseAssetV1 {
            key: Key::AssetV1,
            owner: address(1),
            update_authority: theirs,
            name: String::new(),
            uri: String::new(),
            seq: None,
        }
        .try_to_vec()
        .unwrap();
        assert_eq!(examine(&staking).asset.unwrap().update_authority, ours);
    }
}

#[test]
fn accounts_without_records_are_refused() {
    let (mut staking, _) = accounts(Some(&STAKED), None);
    staking.asset.data = vec![];
    assert_eq!(check_accounts(&staking), Some(Err(ErrorCode::BorshIoError)));
    let (mut staking, _) = accounts(Some(&STAKED), None);
    staking.collection.data = vec![5];
    assert_eq!(check_accounts(&staking), Some(Err(ErrorCode::BorshIoError)));
}

#[test]
fn accounts_of_another_program_are_refused() {
    let (mut staking, _) = accounts(Some(&STAKED), None);
    staking.asset.program = key(&address(5));
    assert_eq!(check_accounts(&staking), Some(Err(ErrorCode::AccountOwnedByWrongProgram)));
    let (mut staking, _) = accounts(Some(&STAKED), None);
    staking.collection.program = key(&address(5));
    assert_eq!(check_accounts(&staking), Some(Err(ErrorCode::AccountOwnedByWrongProgram)));
}

#[test]
fn accounts_that_do_not_exist_are_refused() {
    assert_eq!(SYSTEM_PROGRAM_ID, anchor_lang::system_program::ID.to_bytes());
    let system = Pubkey { bytes: SYSTEM_PROGRAM_ID };
    let (mut staking, _) = accounts(Some(&STAKED), None);
    staking.asset.program = system;
    assert_eq!(check_accounts(&staking), Some(Err(ErrorCode::AccountOwnedByWrongProgram)));
    staking.asset.lamports = 0;
    assert_eq!(check_accounts(&staking), Some(Err(ErrorCode::AccountNotInitialized)));
    staking.asset.data = vec![];
    assert_eq!(check_accounts(&staking), Some(Err(ErrorCode::AccountNotInitialized)));
    let (mut staking, _) = accounts(Some(&STAKED), None);
    staking.collection.program = system;
    assert_eq!(check_accounts(&staking), Some(Err(ErrorCode::AccountOwnedByWrongProgram)));
    staking.collection.lamports = 0;
    assert_eq!(check_accounts(&staking), Some(Err(ErrorCode::AccountNotInitialized)));
}

#[test]
fn an_account_of_the_asset_program_needs_no_balance() {
    let (mut staking, bump) = accounts(Some(&STAKED), None);
    staking.asset.lamports = 0;
    staking.collection.lamports = 0;
    assert_eq!(check_accounts(&staking), Some(Ok(bump)));
}

#[test]
fn an_unreadable_asset_is_noticed_before_its_collection() {
    let (mut staking, _) = accounts(Some(&STAKED), None);
    staking.asset.data = vec![];
    staking.collection.program = key(&address(5));
    assert_eq!(check_accounts(&staking), Some(Err(ErrorCode::BorshIoError)));
}

#[test]
fn without_an_update_authority_there_is_no_answer() {
    let (staking, _) = accounts(Some(&STAKED), None);
    let findings = Findings { update_authority: None, ..examine(&staking) };
    assert_eq!(judge(&staking, &findings), None);
}

#[test]
fn a_claim_mints_and_then_marks_the_days_as_paid() {
    let (staking, bump) = accounts(Some(&STAKED), None);
    let ctx = ClaimRewards { accounts: staking };
    let now = START + 10 * DAY + 99;
    let (state, action) = claim_rewards::handler(&ctx, now, ClaimState::Start).unwrap().unwrap();
    let signer = config_signer(&ctx.accounts);
    assert_eq!(derived(&signer, &ctx.accounts.program_id), ctx.accounts.config_key);
    assert_eq!(action, Action::MintRewards { amount: 500_000, decimals: 6, signer });
    assert_eq!(
        state,
        ClaimState::Minted {
            attributes: attributes(&STAKED),
            terms: ClaimTerms { last_claimed_at: START, days: 10 },
            authority_bump: bump,
        }
    );
    let (state, action) = claim_rewards::handler(&ctx, now, state).unwrap().unwrap();
    let signer = authority_signer(&ctx.accounts, bump);
    assert_eq!(derived(&signer, &ctx.accounts.program_id), ctx.accounts.update_authority);
    assert_eq!(
        action,
        Action::UpdateAssetAttributes {
            attributes: attributes(&[
                ("level", "7"),
                ("staked", "true"),
                ("staked_at", "1700000000"),
                ("last_claimed_at", "1700864000"),
            ]),
            signer,
        }
    );
    assert_eq!(state, ClaimState::Finished);
    assert_eq!(
        claim_rewards::handler(&ctx, now, state),
        Some(Ok((ClaimState::Finished, Action::Done)))
    );
}

#[test]
fn a_repeated_claim_does_nothing() {
    let (staking, _) = accounts(Some(&STAKED), None);
    let ctx = ClaimRewards { accounts: staking };
    let now = START + 10 * DAY + 99;
    let (state, _) = claim_rewards::handler(&ctx, now, ClaimState::Start).unwrap().unwrap();
    let (_, action) = claim_rewards::handler(&ctx, now, state).unwrap().unwrap();
    let stored: Vec<(String, String)> = match action {
        Action::UpdateAssetAttributes { attributes, .. } => attributes
            .attribute_list
            .into_iter()
            .map(|a| (a.key, a.value))
            .collect(),
        _ => panic!("the asset is updated"),
    };
    let pairs: Vec<(&str, &str)> =
        stored.iter().map(|(key, value)| (key.as_str(), value.as_str())).collect();
    let (staking, _) = accounts(Some(&pairs), None);
    let ctx = ClaimRewards { accounts: staking };
    assert_eq!(
        claim_rewards::handler(&ctx, now, ClaimState::Start),
        Some(Ok((ClaimState::Finished, Action::Done)))
    );
}

#[test]
fn a_claim_within_a_day_does_nothing() {
    let (staking, _) = accounts(Some(&STAKED), None);
    let ctx = ClaimRewards { accounts: staking };
    assert_eq!(
        claim_rewards::handler(&ctx, START + DAY - 1, ClaimState::Start),
        Some(Ok((ClaimState::Finished, Action::Done)))
    );
}

#[test]
fn a_claim_is_refused_with_its_reason() {
    let (staking, _) = accounts(None, None);
    let ctx = ClaimRewards { accounts: staking };
    assert_eq!(
        claim_rewards::handler(&ctx, START, ClaimState::Start),
        Some(Err(ErrorCode::AssetNotStaked))
    );
    let (mut staking, _) = accounts(Some(&STAKED), None);
    staking.decimals = 18;
    let ctx = ClaimRewards { accounts: staking };
    assert_eq!(
        claim_rewards::handler(&ctx, START + DAY, ClaimState::Start),
        Some(Err(ErrorCode::InvalidRewardsBps))
    );
    let late = ClaimState::Minted {
        attributes: attributes(&STAKED),
        terms: ClaimTerms { last_claimed_at: i64::MAX, days: 1 },
        authority_bump: 0,
    };
    assert_eq!(
        claim_rewards::handler(&ctx, START, late),
        Some(Err(ErrorCode::NumericalOverflow))
    );
}

#[test]
fn rewards_that_cannot_be_computed_have_no_answer() {
    let (mut staking, _) = accounts(Some(&STAKED), None);
    staking.decimals = 20;
    let ctx = ClaimRewards { accounts: staking };
    assert_eq!(claim_rewards::handler(&ctx, START + DAY, ClaimState::Start), None);
    assert_eq!(
        claim_rewards::handler(&ctx, START + DAY - 1, ClaimState::Start),
        Some(Ok((ClaimState::Finished, Action::Done)))
    );
    let ctx = Unstake { accounts: ctx.accounts };
    assert_eq!(unstake::handler(&ctx, START, UnstakeState::Counted { days: 1 }), None);
}

#[test]
fn an_unstaking_clears_thaws_counts_and_pays() {
    let (staking, bump) = accounts(Some(&STAKED), Some(&[("total_staked", "4"), ("a", "b")]));
    let ctx = Unstake { accounts: staking };
    let now = START + 10 * DAY + 99;
    let signer = authority_signer(&ctx.accounts, bump);
    assert_eq!(derived(&signer, &ctx.accounts.program_id), ctx.accounts.update_authority);

    let (state, action) = unstake::handler(&ctx, now, UnstakeState::Start).unwrap().unwrap();
    assert_eq!(state, UnstakeState::Cleared { days: 10, authority_bump: bump });
    assert_eq!(
        action,
        Action::UpdateAssetAttributes {
            attributes: attributes(&[
                ("level", "7"),
                ("staked", "false"),
                ("staked_at", "0"),
                ("last_claimed_at", "0"),
            ]),
            signer: signer.clone(),
        }
    );

    let (state, action) = unstake::handler(&ctx, now, state).unwrap().unwrap();
    assert_eq!(state, UnstakeState::Thawed { days: 10, authority_bump: bump });
    assert_eq!(action, Action::ThawAsset { signer: signer.clone() });

    let (state, action) = unstake::handler(&ctx, now, state).unwrap().unwrap();
    assert_eq!(state, UnstakeState::Counted { days: 10 });
    assert_eq!(
        action,
        Action::UpdateCollectionAttributes {
            attributes: attributes(&[("total_staked", "3"), ("a", "b")]),
            signer,
        }
    );

    let (state, action) = unstake::handler(&ctx, now, state).unwrap().unwrap();
    assert_eq!(state, UnstakeState::Finished);
    assert_eq!(
        action,
        Action::MintRewards {
            amount: 500_000,
            decimals: 6,
            signer: config_signer(&ctx.accounts),
        }
    );
    assert_eq!(
        unstake::handler(&ctx, now, state),
        Some(Ok((UnstakeState::Finished, Action::Done)))
    );
}

#[test]
fn an_unstaking_without_a_count_or_rewards_skips_them() {
    let (staking, bump) = accounts(Some(&STAKED), None);
    let ctx = Unstake { accounts: staking };
    let thawed = UnstakeState::Thawed { days: 0, authority_bump: bump };
    assert_eq!(
        unstake::handler(&ctx, START, thawed),
        Some(Ok((UnstakeState::Finished, Action::Done)))
    );
    let thawed = UnstakeState::Thawed { days: 2, authority_bump: bump };
    let signer = config_signer(&ctx.accounts);
    assert_eq!(
        unstake::handler(&ctx, START, thawed),
        Some(Ok((
            UnstakeState::Finished,
            Action::MintRewards { amount: 100_000, decimals: 6, signer }
        )))
    );
}

#[test]
fn an_unstaking_is_refused_with_its_reason() {
    let (staking, _) = accounts(Some(&STAKED), None);
    let ctx = Unstake { accounts: staking };
    assert_eq!(
        unstake::handler(&ctx, START + 2 * DAY - 1, UnstakeState::Start),
        Some(Err(ErrorCode::FreezePeriodNotElapsed))
    );
    assert_eq!(
        unstake::handler(&ctx, START, UnstakeState::Counted { days: u64::MAX }),
        Some(Err(ErrorCode::InvalidRewardsBps))
    );
    let (staking, _) = accounts(None, None);
    let ctx = Unstake { accounts: staking };
    assert_eq!(
        unstake::handler(&ctx, START, UnstakeState::Start),
        Some(Err(ErrorCode::AssetNotStaked))
    );
}

#[test]
fn an_unstaked_asset_is_refused_by_both_instructions() {
    let cleared = [("staked", "false"), ("staked_at", "0"), ("last_claimed_at", "0")];
    let (staking, _) = accounts(Some(&cleared), None);
    let ctx = Unstake { accounts: staking };
    assert_eq!(
        unstake::handler(&ctx, START, UnstakeState::Start),
        Some(Err(ErrorCode::AssetNotStaked))
    );
    let ctx = ClaimRewards { accounts: ctx.accounts };
    assert_eq!(
        claim_rewards::handler(&ctx, START, ClaimState::Start),
        Some(Err(ErrorCode::AssetNotStaked))
    );
}
