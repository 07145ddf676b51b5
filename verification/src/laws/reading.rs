//! Laws of what is read: numbers in decimal notation, plugin records, and what the views of
//! values keep of them.

use crate::accounts::Findings;
use crate::action::{Action, ActionView};
use crate::address::{optional_bumped_key, optional_key, seeds_view, Pubkey, MPL_CORE_ID};
use crate::attributes::{list_view, optional_view, Attributes};
use crate::decimal::{denoted, digits_value, is_digits, notation, parsed_i64, parsed_u32};
use crate::error::ErrorCode;
use crate::instructions::claim_rewards::{self, ClaimState, ClaimStateView};
use crate::instructions::unstake::{self, UnstakeState};
use crate::plugins::{
    asset_readable, asset_record, collection_readable, collection_record, is_attributes_record,
    little_endian, optional_asset, optional_collection, plugins_in_bounds, records_in_bounds,
    registry_offset, registry_records, AssetRecord, CollectionRecord, UpdateAuthority,
    UpdateAuthorityView,
};
use vstd::prelude::*;

verus! {

/// The number of a digit.
pub open spec fn digit(c: char) -> int {
    c as int - '0' as int
}

/// Whether a text consists of digits, at least one of them.
pub open spec fn all_digits(text: Seq<char>) -> bool {
    text.len() > 0 && forall|i: int| 0 <= i < text.len() ==> '0' <= #[trigger] text[i] <= '9'
}

/// Texts are read in base ten: a digit denotes its number, a further digit behind a digit string
/// makes it ten times as large and adds its own number, a sign in front is heeded, and nothing
/// but digits behind an optional sign denotes a number. Unsigned numbers take no minus.
pub proof fn numbers_are_read_in_base_ten(text: Seq<char>, c: char, negative_allowed: bool)
    requires
        '0' <= c <= '9',
    ensures
        denoted(seq![c], negative_allowed) == Some(digit(c)),
        all_digits(text) ==> denoted(text, negative_allowed) is Some && denoted(
            text.push(c),
            negative_allowed,
        ) == Some(10 * denoted(text, negative_allowed)->0 + digit(c)),
        all_digits(text) ==> denoted(seq!['+'] + text, negative_allowed) == denoted(
            text,
            negative_allowed,
        ),
        all_digits(text) ==> denoted(seq!['-'] + text, true) == Some(-denoted(text, true)->0),
        denoted(seq!['-'] + text, false) is None,
        denoted(text, negative_allowed) is Some ==> all_digits(text) || all_digits(text.skip(1))
            && (text[0] == '+' || text[0] == '-'),
{
    reveal_with_fuel(digits_value, 2);
    assert(seq![c].drop_last() =~= Seq::<char>::empty());
    assert(is_digits(seq![c]));
    assert(text.push(c).drop_last() =~= text);
    assert((seq!['+'] + text).skip(1) =~= text);
    assert((seq!['-'] + text).skip(1) =~= text);
    if all_digits(text) {
        assert('0' <= text[0] <= '9');
        assert(text.push(c)[0] == text[0]);
        assert forall|i: int| 0 <= i < text.push(c).len() implies crate::decimal::is_digit(
            #[trigger] text.push(c)[i],
        ) by {
            if i < text.len() {
                assert(text.push(c)[i] == text[i]);
            }
        }
        assert(is_digits(text));
    }
    assert(!is_digits(seq!['-'] + text)) by {
        assert((seq!['-'] + text)[0] == '-');
    }
}

/// A text is a time where it denotes a signed 64-bit number, and a count where it denotes an
/// unsigned 32-bit number; then it is that number.
pub proof fn numbers_are_read_in_range(text: Seq<char>)
    ensures
        parsed_i64(text) is Some <==> denoted(text, true) is Some && -0x8000_0000_0000_0000
            <= denoted(text, true)->0 <= 0x7fff_ffff_ffff_ffff,
        parsed_i64(text) is Some ==> parsed_i64(text)->0 == denoted(text, true)->0,
        parsed_u32(text) is Some <==> denoted(text, false) is Some && denoted(text, false)->0
            <= 0xffff_ffff,
        parsed_u32(text) is Some ==> parsed_u32(text)->0 == denoted(text, false)->0,
{
}

/// Numbers are written in base ten without leading zeros, with a minus in front of negative
/// ones.
pub proof fn numbers_are_written_in_base_ten(n: nat, d: nat)
    requires
        d < 10,
    ensures
        notation(d as int).len() == 1,
        digit(notation(d as int)[0]) == d,
        n > 0 ==> notation((10 * n + d) as int) == notation(n as int).push(notation(d as int)[0]),
        n > 0 ==> notation(-n) == seq!['-'] + notation(n as int),
{
    reveal_with_fuel(crate::decimal::digits_of, 2);
}

/// The offset in a plugin header is the number in its second to ninth byte, the lowest first; a
/// header takes nine bytes, of which the first is below 7.
pub proof fn header_is_read_from_nine_bytes(data: Seq<u8>)
    ensures
        registry_offset(data) is Some <==> data.len() >= 9 && data[0] < 7,
        registry_offset(data) is Some ==> registry_offset(data)->0 == data[1] + 0x100 * data[2]
            + 0x1_0000 * data[3] + 0x100_0000 * data[4] + 0x1_0000_0000 * data[5]
            + 0x100_0000_0000 * data[6] + 0x1_0000_0000_0000 * data[7] + 0x100_0000_0000_0000
            * data[8],
{
    if data.len() >= 9 {
        reveal_with_fuel(little_endian, 9);
        let b = data.subrange(1, 9);
        assert(b.skip(1) =~= data.subrange(2, 9));
        assert(data.subrange(2, 9).skip(1) =~= data.subrange(3, 9));
        assert(data.subrange(3, 9).skip(1) =~= data.subrange(4, 9));
        assert(data.subrange(4, 9).skip(1) =~= data.subrange(5, 9));
        assert(data.subrange(5, 9).skip(1) =~= data.subrange(6, 9));
        assert(data.subrange(6, 9).skip(1) =~= data.subrange(7, 9));
        assert(data.subrange(7, 9).skip(1) =~= data.subrange(8, 9));
        assert(data.subrange(8, 9).skip(1) =~= Seq::<u8>::empty());
    }
}

/// When the offsets in an account stay within it: always where nothing, or no plugin header,
/// stands behind the base record, and where no registry can be read; else where the registry,
/// and the first attributes plugin that it names, begin within the account.
pub proof fn offsets_within_an_account_are_followed(data: Seq<u8>, base: nat, i: int)
    ensures
        base == data.len() ==> plugins_in_bounds(data, base),
        base > data.len() ==> !plugins_in_bounds(data, base),
        base < data.len() ==> match registry_offset(data.skip(base as int)) {
            None => plugins_in_bounds(data, base),
            Some(at) => {
                &&& at > data.len() ==> !plugins_in_bounds(data, base)
                &&& at <= data.len() ==> match registry_records(data.skip(at as int)) {
                    None => plugins_in_bounds(data, base),
                    Some(records) => {
                        &&& (forall|j: int| 0 <= j < records.len() ==> (#[trigger] records[j]).0 != 6)
                            ==> plugins_in_bounds(data, base)
                        &&& 0 <= i < records.len() && records[i].0 == 6 && (forall|j: int|
                            0 <= j < i ==> (#[trigger] records[j]).0 != 6) ==> plugins_in_bounds(
                            data,
                            base,
                        ) == (records[i].1 <= data.len())
                    },
                }
            },
        },
{
    if base < data.len() {
        if let Some(at) = registry_offset(data.skip(base as int)) {
            if at <= data.len() {
                if let Some(records) = registry_records(data.skip(at as int)) {
                    if 0 <= i < records.len() && records[i].0 == 6 && (forall|j: int|
                        0 <= j < i ==> (#[trigger] records[j]).0 != 6) {
                        assert(is_attributes_record(records, i));
                        assert forall|k: int| is_attributes_record(records, k) implies k == i by {
                            assert(records[k].0 == 6);
                            assert(records[i].0 == 6);
                        }
                        assert(records_in_bounds(records, data.len()) == (records[i].1
                            <= data.len()));
                    }
                }
            }
        }
    }
}

/// When attributes can be looked up: the account of another program, one that begins with
/// another number than 1 for an asset or 5 for a collection, and one without a base record
/// always can be, any other exactly where its offsets stay within it.
pub proof fn attributes_can_be_looked_up(program: Seq<u8>, data: Seq<u8>)
    ensures
        program != MPL_CORE_ID@ ==> asset_readable(program, data) && collection_readable(
            program,
            data,
        ),
        data.len() == 0 ==> asset_readable(program, data) && collection_readable(program, data),
        data.len() > 0 && data[0] != 1 ==> asset_readable(program, data),
        data.len() > 0 && data[0] != 5 ==> collection_readable(program, data),
        asset_record(data) is None ==> asset_readable(program, data),
        collection_record(data) is None ==> collection_readable(program, data),
        program == MPL_CORE_ID@ && data.len() > 0 && data[0] == 1 && asset_record(data) is Some
            ==> asset_readable(program, data) == plugins_in_bounds(data, asset_record(data)->0.size),
        program == MPL_CORE_ID@ && data.len() > 0 && data[0] == 5 && collection_record(data) is Some
            ==> collection_readable(program, data) == plugins_in_bounds(
            data,
            collection_record(data)->0.size,
        ),
{
}

/// What is stated of an attribute list is stated of its texts, one by one and in their order.
pub proof fn attributes_are_seen_as_they_are(attributes: Attributes, i: int)
    ensures
        attributes@.len() == attributes.attribute_list@.len(),
        0 <= i < attributes@.len() ==> attributes@[i].key == attributes.attribute_list@[i].key@
            && attributes@[i].value == attributes.attribute_list@[i].value@,
        attributes@ == list_view(attributes.attribute_list@),
        optional_view(Some(attributes)) == Some(attributes@),
        optional_view(None) is None,
{
}

/// What is stated of a call is stated of all that it is made with.
pub proof fn actions_are_seen_as_they_are(action: Action)
    ensures
        match action {
            Action::UpdateAssetAttributes { attributes, signer } => action@
                == ActionView::UpdateAssetAttributes {
                attributes: attributes@,
                signer: seeds_view(signer@),
            },
            Action::UpdateCollectionAttributes { attributes, signer } => action@
                == ActionView::UpdateCollectionAttributes {
                attributes: attributes@,
                signer: seeds_view(signer@),
            },
            Action::ThawAsset { signer } => action@ == ActionView::ThawAsset {
                signer: seeds_view(signer@),
            },
            Action::MintRewards { amount, decimals, signer } => action@ == ActionView::MintRewards {
                amount,
                decimals,
                signer: seeds_view(signer@),
            },
            Action::Done => action@ == ActionView::Done,
        },
{
}

/// What is stated of the states and steps of a claim is stated of all that they hold.
pub proof fn claims_are_seen_as_they_are(state: ClaimState, action: Action, e: ErrorCode)
    ensures
        match state {
            ClaimState::Start => state@ == ClaimStateView::Start,
            ClaimState::Minted { attributes, terms, authority_bump } => state@
                == ClaimStateView::Minted { attributes: attributes@, terms, authority_bump },
            ClaimState::Finished => state@ == ClaimStateView::Finished,
        },
        claim_rewards::step_view(Ok((state, action))) == Ok::<
            (ClaimStateView, ActionView),
            ErrorCode,
        >((state@, action@)),
        claim_rewards::step_view(Err(e)) == Err::<(ClaimStateView, ActionView), ErrorCode>(e),
        claim_rewards::optional_step_view(Some(Ok((state, action)))) == Some(
            Ok::<(ClaimStateView, ActionView), ErrorCode>((state@, action@)),
        ),
        claim_rewards::optional_step_view(Some(Err(e))) == Some(
            Err::<(ClaimStateView, ActionView), ErrorCode>(e),
        ),
        claim_rewards::optional_step_view(None) is None,
{
}

/// What is stated of the steps of an unstaking is stated of all that they hold.
pub proof fn unstakings_are_seen_as_they_are(state: UnstakeState, action: Action, e: ErrorCode)
    ensures
        unstake::step_view(Ok((state, action))) == Ok::<(UnstakeState, ActionView), ErrorCode>(
            (state, action@),
        ),
        unstake::step_view(Err(e)) == Err::<(UnstakeState, ActionView), ErrorCode>(e),
        unstake::optional_step_view(Some(Ok((state, action)))) == Some(
            Ok::<(UnstakeState, ActionView), ErrorCode>((state, action@)),
        ),
        unstake::optional_step_view(Some(Err(e))) == Some(
            Err::<(UnstakeState, ActionView), ErrorCode>(e),
        ),
        unstake::optional_step_view(None) is None,
{
}

/// What is stated of addresses and seeds is stated of all their bytes.
pub proof fn addresses_are_seen_as_they_are(key: Pubkey, bump: u8, seeds: Seq<Vec<u8>>, i: int)
    ensures
        key@ == key.bytes@,
        optional_key(Some(key)) == Some(key.bytes@),
        optional_key(None) is None,
        optional_bumped_key(Some((key, bump))) == Some((key.bytes@, bump)),
        optional_bumped_key(None) is None,
        seeds_view(seeds).len() == seeds.len(),
        0 <= i < seeds.len() ==> seeds_view(seeds)[i] == seeds[i]@,
{
}

/// What is stated of what was found out about accounts is stated of all of it.
pub proof fn findings_are_seen_as_they_are(findings: Findings)
    ensures
        findings@.asset == optional_asset(findings.asset),
        findings@.collection == optional_collection(findings.collection),
        findings@.config == optional_key(findings.config),
        findings@.update_authority == optional_bumped_key(findings.update_authority),
        findings@.rewards_mint == optional_key(findings.rewards_mint),
{
}

/// What is stated of base records is stated of all that they hold.
pub proof fn records_are_seen_as_they_are(asset: AssetRecord, collection: CollectionRecord)
    ensures
        asset@.owner == asset.owner.bytes@,
        asset@.size == asset.size,
        match asset.update_authority {
            UpdateAuthority::Nobody => asset@.update_authority == UpdateAuthorityView::Nobody,
            UpdateAuthority::Address(key) => asset@.update_authority
                == UpdateAuthorityView::Address(key.bytes@),
            UpdateAuthority::Collection(key) => asset@.update_authority
                == UpdateAuthorityView::Collection(key.bytes@),
        },
        collection@.update_authority == collection.update_authority.bytes@,
        collection@.size == collection.size,
        optional_asset(Some(asset)) == Some(asset@),
        optional_asset(None) is None,
        optional_collection(Some(collection)) == Some(collection@),
        optional_collection(None) is None,
{
}

} // verus!
