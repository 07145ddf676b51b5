//! Records that the asset program keeps in its accounts: the base record of an asset or a
//! collection, and the plugins behind it.

use crate::address::{Pubkey, MPL_CORE_ID};
use crate::attributes::{Attribute, AttributeView, Attributes, optional_view};
use anchor_lang::prelude::AccountInfo;
use mpl_core::accounts::{BaseAssetV1, BaseCollectionV1, PluginHeaderV1};
use mpl_core::types::PluginType;
use mpl_core::{fetch_plugin, DataBlob, PluginRegistryV1Safe};
use vstd::prelude::*;
use vstd::slice::slice_subrange;

verus! {

/// Who may update an asset.
#[derive(Clone, Copy, Debug, PartialEq, Eq)]
pub enum UpdateAuthority {
    Nobody,
    Address(Pubkey),
    Collection(Pubkey),
}

/// The addresses in an [`UpdateAuthority`].
pub enum UpdateAuthorityView {
    Nobody,
    Address(Seq<u8>),
    Collection(Seq<u8>),
}

impl View for UpdateAuthority {
    type V = UpdateAuthorityView;

    open spec fn view(&self) -> UpdateAuthorityView {
        match *self {
            UpdateAuthority::Nobody => UpdateAuthorityView::Nobody,
            UpdateAuthority::Address(key) => UpdateAuthorityView::Address(key@),
            UpdateAuthority::Collection(key) => UpdateAuthorityView::Collection(key@),
        }
    }
}

/// What staking reads of the base record of an asset.
#[derive(Clone, Copy, Debug, PartialEq, Eq)]
pub struct AssetRecord {
    pub owner: Pubkey,
    pub update_authority: UpdateAuthority,
    /// The number of bytes that the record takes up in the account.
    pub size: usize,
}

/// What an [`AssetRecord`] says.
pub struct AssetRecordView {
    pub owner: Seq<u8>,
    pub update_authority: UpdateAuthorityView,
    pub size: nat,
}

impl View for AssetRecord {
    type V = AssetRecordView;

    open spec fn view(&self) -> AssetRecordView {
        AssetRecordView {
            owner: self.owner@,
            update_authority: self.update_authority@,
            size: self.size as nat,
        }
    }
}

/// What an optional [`AssetRecord`] says.
pub open spec fn optional_asset(record: Option<AssetRecord>) -> Option<AssetRecordView> {
    match record {
        Some(r) => Some(r@),
        None => None,
    }
}

/// What staking reads of the base record of a collection.
#[derive(Clone, Copy, Debug, PartialEq, Eq)]
pub struct CollectionRecord {
    pub update_authority: Pubkey,
    /// The number of bytes that the record takes up in the account.
    pub size: usize,
}

/// What a [`CollectionRecord`] says.
pub struct CollectionRecordView {
    pub update_authority: Seq<u8>,
    pub size: nat,
}

impl View for CollectionRecord {
    type V = CollectionRecordView;

    open spec fn view(&self) -> CollectionRecordView {
        CollectionRecordView { update_authority: self.update_authority@, size: self.size as nat }
    }
}

/// What an optional [`CollectionRecord`] says.
pub open spec fn optional_collection(record: Option<CollectionRecord>) -> Option<
    CollectionRecordView,
> {
    match record {
        Some(r) => Some(r@),
        None => None,
    }
}

/// What `mpl_core::accounts::BaseAssetV1::from_bytes` reads at the front of the data of an
/// account; the size of the record is what `mpl_core::DataBlob::len` gives of it.
pub uninterp spec fn asset_record(data: Seq<u8>) -> Option<AssetRecordView>;

/// What `mpl_core::accounts::BaseCollectionV1::from_bytes` reads at the front of the data of an
/// account; the size of the record is what `mpl_core::DataBlob::len` gives of it.
pub uninterp spec fn collection_record(data: Seq<u8>) -> Option<CollectionRecordView>;

/// The number that `bytes` denote in base 256, the lowest digit first.
pub open spec fn little_endian(bytes: Seq<u8>) -> int
    decreases bytes.len(),
{
    if bytes.len() == 0 {
        0
    } else {
        bytes.first() + 256 * little_endian(bytes.skip(1))
    }
}

/// How many kinds of record the asset program numbers, from 0 on.
pub const RECORD_KINDS: u8 = 7;

/// The offset of the plugin registry in the plugin header at the front of `data`: behind one byte
/// with the number of a kind of record stand the eight bytes of the offset, the lowest first.
pub open spec fn registry_offset(data: Seq<u8>) -> Option<u64> {
    if data.len() >= 9 && data[0] < RECORD_KINDS {
        Some(little_endian(data.subrange(1, 9)) as u64)
    } else {
        None
    }
}

/// The plugin type and the offset in each record that
/// `mpl_core::PluginRegistryV1Safe::from_bytes` reads.
pub uninterp spec fn registry_records(data: Seq<u8>) -> Option<Seq<(u8, u64)>>;

/// The attributes that `mpl_core::fetch_plugin` finds in the account of an asset, from the program that
/// owns the account and the data that it holds.
pub uninterp spec fn asset_attributes(program: Seq<u8>, data: Seq<u8>) -> Option<
    Seq<AttributeView>,
>;

/// The attributes that `mpl_core::fetch_plugin` finds in the account of a collection, from the
/// program that owns the account and the data that it holds.
pub uninterp spec fn collection_attributes(program: Seq<u8>, data: Seq<u8>) -> Option<
    Seq<AttributeView>,
>;

/// Calls `BaseAssetV1::from_bytes`, and `DataBlob::len` for the size of what it read. Data that
/// does not begin with such a record gives none.
#[verifier::external_body]
pub(crate) fn read_asset(data: &[u8]) -> (r: Option<AssetRecord>)
    ensures
        optional_asset(r) == asset_record(data@),
{
    BaseAssetV1::from_bytes(data).ok().map(|asset| AssetRecord {
        size: DataBlob::len(&asset),
        owner: Pubkey { bytes: asset.owner.to_bytes() },
        update_authority: match asset.update_authority {
            mpl_core::types::UpdateAuthority::None => UpdateAuthority::Nobody,
            mpl_core::types::UpdateAuthority::Address(key) =>
                UpdateAuthority::Address(Pubkey { bytes: key.to_bytes() }),
            mpl_core::types::UpdateAuthority::Collection(key) =>
                UpdateAuthority::Collection(Pubkey { bytes: key.to_bytes() }),
        },
    })
}

/// Calls `BaseCollectionV1::from_bytes`, and `DataBlob::len` for the size of what it read. Data
/// that does not begin with such a record gives none.
#[verifier::external_body]
pub(crate) fn read_collection(data: &[u8]) -> (r: Option<CollectionRecord>)
    ensures
        optional_collection(r) == collection_record(data@),
{
    BaseCollectionV1::from_bytes(data).ok().map(|collection| CollectionRecord {
        size: DataBlob::len(&collection),
        update_authority: Pubkey { bytes: collection.update_authority.to_bytes() },
    })
}

/// Calls `mpl_core::accounts::PluginHeaderV1::from_bytes` and keeps the offset of the registry:
/// the number in the second to the ninth byte. Data of fewer than nine bytes, and data whose
/// first byte is the number of no kind of record, gives none; what follows is not looked at.
#[verifier::external_body]
pub(crate) fn read_registry_offset(data: &[u8]) -> (r: Option<u64>)
    ensures
        r == registry_offset(data@),
{
    PluginHeaderV1::from_bytes(data).ok().map(|header| header.plugin_registry_offset)
}

/// Calls `PluginRegistryV1Safe::from_bytes` and keeps the type and the offset of each record.
#[verifier::external_body]
pub(crate) fn read_registry(data: &[u8]) -> (r: Option<Vec<(u8, u64)>>)
    ensures
        match r {
            Some(records) => registry_records(data@) == Some(records@),
            None => registry_records(data@) is None,
        },
{
    PluginRegistryV1Safe::from_bytes(data).ok().map(
        |registry| registry.registry.iter().map(|record| (record.plugin_type, record.offset)).collect(),
    )
}

/// The number of the attributes plugin in a plugin registry.
pub const ATTRIBUTES_PLUGIN: u8 = 6;

/// The number with which the account of an asset begins.
pub const ASSET_KEY: u8 = 1;

/// The number with which the account of a collection begins.
pub const COLLECTION_KEY: u8 = 5;

/// Whether `i` is the position of the first record of an attributes plugin.
pub open spec fn is_attributes_record(records: Seq<(u8, u64)>, i: int) -> bool {
    &&& 0 <= i < records.len()
    &&& records[i].0 == ATTRIBUTES_PLUGIN
    &&& forall|j: int| 0 <= j < i ==> (#[trigger] records[j]).0 != ATTRIBUTES_PLUGIN
}

/// Whether the first attributes plugin among `records`, if there is one, begins within an
/// account of `size` bytes.
pub open spec fn records_in_bounds(records: Seq<(u8, u64)>, size: nat) -> bool {
    forall|i: int| is_attributes_record(records, i) ==> (#[trigger] records[i]).1 <= size
}

/// Whether the registry at the front of `registry` places the attributes plugin within an
/// account of `size` bytes, if it names one.
pub open spec fn registry_in_bounds(registry: Seq<u8>, size: nat) -> bool {
    match registry_records(registry) {
        Some(records) => records_in_bounds(records, size),
        None => true,
    }
}

/// Whether the offsets that lead from a base record of `base` bytes to the attributes plugin
/// stay within `data`.
pub open spec fn plugins_in_bounds(data: Seq<u8>, base: nat) -> bool {
    base == data.len() || {
        &&& base <= data.len()
        &&& match registry_offset(data.skip(base as int)) {
            Some(offset) => offset <= data.len() && registry_in_bounds(
                data.skip(offset as int),
                data.len(),
            ),
            None => true,
        }
    }
}

/// Whether an account belongs to the asset program and begins with the number `key`.
pub open spec fn is_core_account(program: Seq<u8>, data: Seq<u8>, key: u8) -> bool {
    program == MPL_CORE_ID@ && data.len() > 0 && data[0] == key
}

/// Whether the attributes of an asset can be looked up: no offset leads out of its account.
pub open spec fn asset_readable(program: Seq<u8>, data: Seq<u8>) -> bool {
    is_core_account(program, data, ASSET_KEY) ==> match asset_record(data) {
        Some(record) => plugins_in_bounds(data, record.size),
        None => true,
    }
}

/// Whether the attributes of a collection can be looked up: no offset leads out of its account.
pub open spec fn collection_readable(program: Seq<u8>, data: Seq<u8>) -> bool {
    is_core_account(program, data, COLLECTION_KEY) ==> match collection_record(data) {
        Some(record) => plugins_in_bounds(data, record.size),
        None => true,
    }
}

/// Calls `fetch_plugin` for the attributes in the account of an asset, on an account with the
/// given owner and data; an account without them, and one that cannot be read, gives none.
/// `fetch_plugin` indexes the data at the offsets that it finds there, so those must lie within.
#[verifier::external_body]
pub(crate) fn fetch_asset_attributes(program: &Pubkey, data: &[u8]) -> (r: Option<Attributes>)
    requires
        asset_readable(program@, data@),
    ensures
        optional_view(r) == asset_attributes(program@, data@),
{
    let key = anchor_lang::prelude::Pubkey::new_from_array([0; 32]);
    let owner = anchor_lang::prelude::Pubkey::new_from_array(program.bytes);
    let (mut lamports, mut bytes) = (0, data.to_vec());
    let info = AccountInfo::new(&key, false, false, &mut lamports, &mut bytes, &owner, false, 0);
    let found = fetch_plugin::<BaseAssetV1, mpl_core::types::Attributes>(
        &info,
        PluginType::Attributes,
    );
    found.ok().map(|(_, plugin, _)| Attributes {
        attribute_list: plugin.attribute_list.into_iter().map(
            |a| Attribute { key: a.key, value: a.value },
        ).collect(),
    })
}

/// Calls `fetch_plugin` for the attributes in the account of a collection, on an account with
/// the given owner and data; an account without them, and one that cannot be read, gives none.
/// `fetch_plugin` indexes the data at the offsets that it finds there, so those must lie within.
#[verifier::external_body]
pub(crate) fn fetch_collection_attributes(program: &Pubkey, data: &[u8]) -> (r: Option<Attributes>)
    requires
        collection_readable(program@, data@),
    ensures
        optional_view(r) == collection_attributes(program@, data@),
{
    let key = anchor_lang::prelude::Pubkey::new_from_array([0; 32]);
    let owner = anchor_lang::prelude::Pubkey::new_from_array(program.bytes);
    let (mut lamports, mut bytes) = (0, data.to_vec());
    let info = AccountInfo::new(&key, false, false, &mut lamports, &mut bytes, &owner, false, 0);
    let found = fetch_plugin::<BaseCollectionV1, mpl_core::types::Attributes>(
        &info,
        PluginType::Attributes,
    );
    found.ok().map(|(_, plugin, _)| Attributes {
        attribute_list: plugin.attribute_list.into_iter().map(
            |a| Attribute { key: a.key, value: a.value },
        ).collect(),
    })
}

/// Whether the first attributes plugin among `records` begins within an account of `size` bytes.
fn records_fit(records: &Vec<(u8, u64)>, size: usize) -> (r: bool)
    ensures
        r == records_in_bounds(records@, size as nat),
{
    let mut i: usize = 0;
    while i < records.len()
        invariant
            i <= records.len(),
            forall|j: int| 0 <= j < i ==> (#[trigger] records@[j]).0 != ATTRIBUTES_PLUGIN,
        decreases records.len() - i,
    {
        if records[i].0 == ATTRIBUTES_PLUGIN {
            assert(is_attributes_record(records@, i as int));
            return records[i].1 <= size as u64;
        }
        i += 1;
    }
    true
}

/// Whether the offsets from a base record of `base` bytes stay within `data`.
fn plugins_fit(data: &[u8], base: usize) -> (r: bool)
    ensures
        r == plugins_in_bounds(data@, base as nat),
{
    let size: usize = data.len();
    if base == size {
        return true;
    }
    if base > size {
        return false;
    }
    assert(data@.subrange(base as int, size as int) =~= data@.skip(base as int));
    match read_registry_offset(slice_subrange(data, base, size)) {
        Some(offset) => {
            if offset > size as u64 {
                return false;
            }
            let at: usize = offset as usize;
            assert(data@.subrange(at as int, size as int) =~= data@.skip(offset as int));
            match read_registry(slice_subrange(data, at, size)) {
                Some(records) => records_fit(&records, size),
                None => true,
            }
        },
        None => true,
    }
}

/// Whether an account belongs to the asset program and begins with the number `key`.
fn core_account(program: &Pubkey, data: &[u8], key: u8) -> (r: bool)
    ensures
        r == is_core_account(program@, data@, key),
{
    let core: Pubkey = Pubkey { bytes: MPL_CORE_ID };
    program.is(&core) && data.len() > 0 && data[0] == key
}

/// The attributes of an asset: `None` where they cannot be looked up, `Some(None)` where the
/// account has none.
pub fn attributes_of_asset(program: &Pubkey, data: &[u8]) -> (r: Option<Option<Attributes>>)
    ensures
        match r {
            Some(attributes) => asset_readable(program@, data@) && optional_view(attributes)
                == asset_attributes(program@, data@),
            None => !asset_readable(program@, data@),
        },
{
    if core_account(program, data, ASSET_KEY) {
        match read_asset(data) {
            Some(record) => {
                if !plugins_fit(data, record.size) {
                    return None;
                }
            },
            None => {},
        }
    }
    Some(fetch_asset_attributes(program, data))
}

/// The attributes of a collection: `None` where they cannot be looked up, `Some(None)` where
/// the account has none.
pub fn attributes_of_collection(program: &Pubkey, data: &[u8]) -> (r: Option<Option<Attributes>>)
    ensures
        match r {
            Some(attributes) => collection_readable(program@, data@) && optional_view(attributes)
                == collection_attributes(program@, data@),
            None => !collection_readable(program@, data@),
        },
{
    if core_account(program, data, COLLECTION_KEY) {
        match read_collection(data) {
            Some(record) => {
                if !plugins_fit(data, record.size) {
                    return None;
                }
            },
            None => {},
        }
    }
    Some(fetch_collection_attributes(program, data))
}

} // verus!
