//! Account addresses, and the addresses that a program derives from seeds.

use vstd::prelude::*;

verus! {

/// The address of an account or a program.
#[derive(Clone, Copy, Debug, PartialEq, Eq)]
pub struct Pubkey {
    pub bytes: [u8; 32],
}

impl View for Pubkey {
    type V = Seq<u8>;

    open spec fn view(&self) -> Seq<u8> {
        self.bytes@
    }
}

/// The bytes of an optional address.
pub open spec fn optional_key(key: Option<Pubkey>) -> Option<Seq<u8>> {
    match key {
        Some(k) => Some(k@),
        None => None,
    }
}

/// The bytes of an optional address with the bump seed that derives it.
pub open spec fn optional_bumped_key(key: Option<(Pubkey, u8)>) -> Option<(Seq<u8>, u8)> {
    match key {
        Some((k, bump)) => Some((k@, bump)),
        None => None,
    }
}

impl Pubkey {
    /// Whether two addresses are the same.
    pub fn is(&self, other: &Pubkey) -> (r: bool)
        ensures
            r == (self@ == other@),
    {
        let mut i: usize = 0;
        while i < 32
            invariant
                i <= 32,
                forall|j: int| 0 <= j < i ==> self@[j] == #[trigger] other@[j],
            decreases 32 - i,
        {
            if self.bytes[i] != other.bytes[i] {
                assert(self@[i as int] != other@[i as int]);
                return false;
            }
            i += 1;
        }
        assert(self@ =~= other@);
        true
    }
}

/// The address of the asset program.
pub const MPL_CORE_ID: [u8; 32] = [
    175, 84, 171, 16, 189, 151, 165, 66, 160, 158, 247, 179, 152, 137, 221, 12, 211, 148, 164, 204,
    233, 223, 166, 205, 201, 126, 190, 45, 35, 91, 167, 72,
];

/// The address of the system program, which owns every account that no program has taken over.
pub const SYSTEM_PROGRAM_ID: [u8; 32] = [
    0, 0, 0, 0, 0, 0, 0, 0, 0, 0, 0, 0, 0, 0, 0, 0, 0, 0, 0, 0, 0, 0, 0, 0, 0, 0, 0, 0, 0, 0, 0, 0,
];

/// First seed of the configuration account, the text `config`.
pub const CONFIG_SEED: [u8; 6] = [99, 111, 110, 102, 105, 103];

/// First seed of the update authority, the text `update_authority`.
pub const UPDATE_AUTHORITY_SEED: [u8; 16] = [
    117, 112, 100, 97, 116, 101, 95, 97, 117, 116, 104, 111, 114, 105, 116, 121,
];

/// First seed of the mint of the reward token, the text `rewards_mint`.
pub const REWARDS_MINT_SEED: [u8; 12] = [114, 101, 119, 97, 114, 100, 115, 95, 109, 105, 110, 116];

/// The bytes of a list of seeds.
pub open spec fn seeds_view(seeds: Seq<Vec<u8>>) -> Seq<Seq<u8>> {
    Seq::new(seeds.len(), |i: int| seeds[i]@)
}

/// What `anchor_lang::prelude::Pubkey::create_program_address` derives from seeds and a program: an address, or none
/// where the seeds hash to a point of the curve or exceed the limits on seeds.
pub uninterp spec fn program_address(seeds: Seq<Seq<u8>>, program_id: Seq<u8>) -> Option<Seq<u8>>;

/// The seeds with a bump seed behind them.
pub open spec fn bumped(seeds: Seq<Seq<u8>>, bump: u8) -> Seq<Seq<u8>> {
    seeds.push(seq![bump])
}

/// The largest nonzero bump seed up to `limit` that derives an address, with that address.
pub open spec fn bump_search(seeds: Seq<Seq<u8>>, program_id: Seq<u8>, limit: u8) -> Option<
    (Seq<u8>, u8),
>
    decreases limit,
{
    if limit == 0 {
        None
    } else {
        match program_address(bumped(seeds, limit), program_id) {
            Some(address) => Some((address, limit)),
            None => bump_search(seeds, program_id, (limit - 1) as u8),
        }
    }
}

/// Calls `anchor_lang::prelude::Pubkey::create_program_address`. The result is a function of the
/// seeds and the program alone; which error there was is forgotten.
#[verifier::external_body]
pub(crate) fn create_program_address(seeds: &Vec<Vec<u8>>, program_id: &Pubkey) -> (r: Option<
    Pubkey,
>)
    ensures
        optional_key(r) == program_address(seeds_view(seeds@), program_id@),
{
    let parts: Vec<&[u8]> = seeds.iter().map(|seed| seed.as_slice()).collect();
    let program = anchor_lang::prelude::Pubkey::new_from_array(program_id.bytes);
    let address = anchor_lang::prelude::Pubkey::create_program_address(&parts, &program);
    address.ok().map(|key| Pubkey { bytes: key.to_bytes() })
}

/// Whether a bump seed may be searched for: there is room for it, and no seed is too long.
pub open spec fn searchable(seeds: Seq<Seq<u8>>) -> bool {
    &&& seeds.len() < 16
    &&& forall|i: int| 0 <= i < seeds.len() ==> (#[trigger] seeds[i]).len() <= 32
}

/// Calls `anchor_lang::prelude::Pubkey::try_find_program_address`, which tries
/// `create_program_address` with a bump seed behind the seeds, from 255 down to 1, and returns
/// the first address that it gets with its bump seed, or none.
#[verifier::external_body]
pub(crate) fn find_program_address(seeds: &Vec<Vec<u8>>, program_id: &Pubkey) -> (r: Option<
    (Pubkey, u8),
>)
    requires
        searchable(seeds_view(seeds@)),
    ensures
        optional_bumped_key(r) == bump_search(seeds_view(seeds@), program_id@, 255),
{
    let parts: Vec<&[u8]> = seeds.iter().map(|seed| seed.as_slice()).collect();
    let program = anchor_lang::prelude::Pubkey::new_from_array(program_id.bytes);
    let found = anchor_lang::prelude::Pubkey::try_find_program_address(&parts, &program);
    found.map(|(key, bump)| (Pubkey { bytes: key.to_bytes() }, bump))
}

/// The seeds of an account that belongs to `key`, without a bump seed.
pub open spec fn seeds_of(prefix: Seq<u8>, key: Seq<u8>) -> Seq<Seq<u8>> {
    seq![prefix, key]
}

/// The seeds of an account that belongs to `key`.
pub(crate) fn seeds(prefix: &[u8], key: &Pubkey) -> (r: Vec<Vec<u8>>)
    ensures
        seeds_view(r@) == seeds_of(prefix@, key@),
{
    let mut list: Vec<Vec<u8>> = Vec::new();
    list.push(vstd::slice::slice_to_vec(prefix));
    list.push(vstd::slice::slice_to_vec(key.bytes.as_slice()));
    assert(seeds_view(list@) =~= seeds_of(prefix@, key@));
    list
}

/// The seeds of an account that belongs to `key`, with a bump seed behind them.
pub(crate) fn seeds_with_bump(prefix: &[u8], key: &Pubkey, bump: u8) -> (r: Vec<Vec<u8>>)
    ensures
        seeds_view(r@) == bumped(seeds_of(prefix@, key@), bump),
{
    let mut list: Vec<Vec<u8>> = seeds(prefix, key);
    let ghost before = seeds_view(list@);
    let mut last: Vec<u8> = Vec::new();
    last.push(bump);
    assert(last@ =~= seq![bump]);
    list.push(last);
    assert(seeds_view(list@) =~= before.push(seq![bump]));
    list
}

} // verus!
