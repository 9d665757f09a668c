//! Derived addresses: each record's location computed from a namespace tag and
//! its seeds, so that anyone can find it without a directory.
use vstd::prelude::*;

use anchor_lang::solana_program::pubkey::Pubkey;

use crate::registry::{BatchRegisterContent, BatchRegisterItem, RegisterContent, VerifyPrompt};
use crate::state::{key_bytes, CustomError, Key, RegistrationData};

verus! {

/// The address that the program `program_id` derives from `seeds`, if any.
pub uninterp spec fn program_address(seeds: Seq<Seq<u8>>, program_id: Seq<u8>) -> Option<Seq<u8>>;

/// The namespace tag of registrations: the ASCII text `registration`.
pub open spec fn registration_tag() -> Seq<u8> {
    seq![114u8, 101u8, 103u8, 105u8, 115u8, 116u8, 114u8, 97u8, 116u8, 105u8, 111u8, 110u8]
}

/// The namespace tag of prompt indexes: the ASCII text `prompt_index`.
pub open spec fn prompt_index_tag() -> Seq<u8> {
    seq![112u8, 114u8, 111u8, 109u8, 112u8, 116u8, 95u8, 105u8, 110u8, 100u8, 101u8, 120u8]
}

/// The address of `creator`'s registration of `prompt_hash`.
pub open spec fn registration_address(program_id: Key, creator: Key, prompt_hash: Key) -> Option<
    Seq<u8>,
> {
    program_address(seq![registration_tag(), creator@, prompt_hash@], program_id@)
}

/// The address of the index of `prompt_hash`.
pub open spec fn prompt_index_address(program_id: Key, prompt_hash: Key) -> Option<Seq<u8>> {
    program_address(seq![prompt_index_tag(), prompt_hash@], program_id@)
}

/// Relies on `Pubkey::try_find_program_address` of solana-program: the first
/// off-curve address that the program derives from the seeds and a bump seed,
/// a function of the seeds and the program alone, or `None` when no bump seed
/// gives one or the seeds are too many or too long.
#[verifier::external_body]
fn find_program_address(seeds: &Vec<Vec<u8>>, program_id: &Key) -> (r: Option<Key>)
    ensures
        r is Some == program_address(seeds.deep_view(), program_id@) is Some,
        r is Some ==> program_address(seeds.deep_view(), program_id@) == Some(r->Some_0@),
{
    let parts: Vec<&[u8]> = seeds.iter().map(|s| s.as_slice()).collect();
    let program = Pubkey::new_from_array(*program_id);
    Pubkey::try_find_program_address(&parts, &program).map(|(address, _bump)| address.to_bytes())
}

/// The derived address of `creator`'s registration of `prompt_hash`.
pub fn derive_registration_address(program_id: &Key, creator: &Key, prompt_hash: &Key) -> (r: Option<Key>)
    ensures
        r is Some == registration_address(*program_id, *creator, *prompt_hash) is Some,
        r is Some ==> registration_address(*program_id, *creator, *prompt_hash) == Some(r->Some_0@),
{
    let tag: Vec<u8> = vec![114u8, 101u8, 103u8, 105u8, 115u8, 116u8, 114u8, 97u8, 116u8, 105u8, 111u8, 110u8];
    let first = key_bytes(creator);
    let second = key_bytes(prompt_hash);
    assert(tag.deep_view() =~= registration_tag());
    assert(first.deep_view() =~= creator@);
    assert(second.deep_view() =~= prompt_hash@);
    let mut seeds: Vec<Vec<u8>> = Vec::new();
    seeds.push(tag);
    seeds.push(first);
    seeds.push(second);
    assert(seeds.deep_view() =~= seq![registration_tag(), creator@, prompt_hash@]);
    find_program_address(&seeds, program_id)
}

/// The derived address of the index of `prompt_hash`.
pub fn derive_prompt_index_address(program_id: &Key, prompt_hash: &Key) -> (r: Option<Key>)
    ensures
        r is Some == prompt_index_address(*program_id, *prompt_hash) is Some,
        r is Some ==> prompt_index_address(*program_id, *prompt_hash) == Some(r->Some_0@),
{
    let tag: Vec<u8> = vec![112u8, 114u8, 111u8, 109u8, 112u8, 116u8, 95u8, 105u8, 110u8, 100u8, 101u8, 120u8];
    let first = key_bytes(prompt_hash);
    assert(tag.deep_view() =~= prompt_index_tag());
    assert(first.deep_view() =~= prompt_hash@);
    let mut seeds: Vec<Vec<u8>> = Vec::new();
    seeds.push(tag);
    seeds.push(first);
    assert(seeds.deep_view() =~= seq![prompt_index_tag(), prompt_hash@]);
    find_program_address(&seeds, program_id)
}

impl RegisterContent {
    /// The accounts of `creator`'s registration of `prompt_hash`, at their
    /// derived addresses; `AddressNotFound` when either address does not exist.
    pub fn derive(program_id: &Key, creator: &Key, prompt_hash: &Key) -> (r: Result<
        RegisterContent,
        CustomError,
    >)
        ensures
            r is Ok == (registration_address(*program_id, *creator, *prompt_hash) is Some
                && prompt_index_address(*program_id, *prompt_hash) is Some),
            r is Ok ==> registration_address(*program_id, *creator, *prompt_hash) == Some(
                r->Ok_0.registration@,
            ) && prompt_index_address(*program_id, *prompt_hash) == Some(r->Ok_0.prompt_index@)
                && r->Ok_0.creator == *creator,
            r is Err ==> r == Err::<RegisterContent, CustomError>(CustomError::AddressNotFound),
    {
        let registration = derive_registration_address(program_id, creator, prompt_hash);
        let prompt_index = derive_prompt_index_address(program_id, prompt_hash);
        match (registration, prompt_index) {
            (Some(registration), Some(prompt_index)) => Ok(
                RegisterContent { registration, prompt_index, creator: *creator },
            ),
            _ => Err(CustomError::AddressNotFound),
        }
    }
}

impl VerifyPrompt {
    /// The account of the index of `prompt_hash`, at its derived address;
    /// `AddressNotFound` when that address does not exist.
    pub fn derive(program_id: &Key, prompt_hash: &Key) -> (r: Result<VerifyPrompt, CustomError>)
        ensures
            r is Ok == prompt_index_address(*program_id, *prompt_hash) is Some,
            r is Ok ==> prompt_index_address(*program_id, *prompt_hash) == Some(r->Ok_0.prompt_index@),
            r is Err ==> r == Err::<VerifyPrompt, CustomError>(CustomError::AddressNotFound),
    {
        match derive_prompt_index_address(program_id, prompt_hash) {
            Some(prompt_index) => Ok(VerifyPrompt { prompt_index }),
            None => Err(CustomError::AddressNotFound),
        }
    }
}

/// Whether the account pair of an item sits at the addresses derived for
/// `creator` and the item's prompt hash.
pub open spec fn derived_item(program_id: Key, creator: Key, data: RegistrationData, item: BatchRegisterItem) -> bool {
    &&& registration_address(program_id, creator, data.prompt_hash) == Some(item.registration@)
    &&& prompt_index_address(program_id, data.prompt_hash) == Some(item.prompt_index@)
}

/// Whether both addresses of the item exist.
pub open spec fn item_derivable(program_id: Key, creator: Key, data: RegistrationData) -> bool {
    &&& registration_address(program_id, creator, data.prompt_hash) is Some
    &&& prompt_index_address(program_id, data.prompt_hash) is Some
}

impl BatchRegisterContent {
    /// The accounts of a batch by `creator`: for each item, in order, its
    /// record and its prompt's index at their derived addresses;
    /// `AddressNotFound` when an address of some item does not exist.
    pub fn derive(program_id: &Key, creator: &Key, registration_data: &Vec<RegistrationData>) -> (r: Result<
        BatchRegisterContent,
        CustomError,
    >)
        ensures
            r is Ok == (forall|i: int|
                0 <= i < registration_data.len() ==> item_derivable(
                    *program_id,
                    *creator,
                    #[trigger] registration_data@[i],
                )),
            r is Ok ==> r->Ok_0.creator == *creator && r->Ok_0.items.len() == registration_data.len()
                && forall|i: int|
                0 <= i < registration_data.len() ==> derived_item(
                    *program_id,
                    *creator,
                    registration_data@[i],
                    #[trigger] r->Ok_0.items@[i],
                ),
            r is Err ==> r == Err::<BatchRegisterContent, CustomError>(CustomError::AddressNotFound),
    {
        let mut items: Vec<BatchRegisterItem> = Vec::new();
        let mut i: usize = 0;
        while i < registration_data.len()
            invariant
                0 <= i <= registration_data.len(),
                items.len() == i,
                forall|k: int| 0 <= k < i ==> item_derivable(*program_id, *creator, #[trigger] registration_data@[k]),
                forall|k: int|
                    0 <= k < i ==> derived_item(*program_id, *creator, registration_data@[k], #[trigger] items@[k]),
            decreases registration_data.len() - i,
        {
            let data = registration_data[i];
            let registration = derive_registration_address(program_id, creator, &data.prompt_hash);
            let prompt_index = derive_prompt_index_address(program_id, &data.prompt_hash);
            match (registration, prompt_index) {
                (Some(registration), Some(prompt_index)) => {
                    items.push(BatchRegisterItem { registration, prompt_index });
                },
                _ => {
                    assert(!item_derivable(*program_id, *creator, registration_data@[i as int]));
                    return Err(CustomError::AddressNotFound);
                },
            }
            i = i + 1;
        }
        Ok(BatchRegisterContent { creator: *creator, items })
    }
}

} // verus!
