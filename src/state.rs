//! Records, notifications and errors shared by the registry's components.
use vstd::prelude::*;

verus! {

/// A 32-byte value: a content digest, a creator identity or a storage address.
pub type Key = [u8; 32];

/// The all-zero key, which marks an index whose prompt hash was never set.
pub open spec fn zero_key() -> Key {
    vstd::array::spec_array_fill_for_copy_type::<u8, 32>(0u8)
}

/// The all-zero key.
pub fn new_zero_key() -> (r: Key)
    ensures
        r == zero_key(),
{
    [0u8; 32]
}

/// Whether two keys hold the same bytes.
pub fn keys_equal(a: &Key, b: &Key) -> (r: bool)
    ensures
        r == (*a == *b),
{
    let mut i: usize = 0;
    while i < 32
        invariant
            0 <= i <= 32,
            forall|j: int| 0 <= j < i ==> a[j] == b[j],
        decreases 32 - i,
    {
        if a[i] != b[i] {
            return false;
        }
        i = i + 1;
    }
    assert(*a =~= *b);
    true
}

/// Whether every byte of the key is zero.
pub fn is_zero_key(a: &Key) -> (r: bool)
    ensures
        r == (*a == zero_key()),
{
    let zero = new_zero_key();
    keys_equal(a, &zero)
}

/// A copy of the key's bytes as a vector.
pub fn key_bytes(a: &Key) -> (r: Vec<u8>)
    ensures
        r@ == a@,
{
    let mut out: Vec<u8> = Vec::new();
    let mut i: usize = 0;
    while i < 32
        invariant
            0 <= i <= 32,
            out@ == a@.take(i as int),
        decreases 32 - i,
    {
        out.push(a[i]);
        i = i + 1;
        assert(out@ =~= a@.take(i as int));
    }
    assert(a@.take(32) =~= a@);
    out
}

/// One creator's binding of a prompt hash to an output hash.
#[derive(Clone, Copy, Debug, PartialEq, Eq)]
pub struct Registration {
    pub prompt_hash: Key,
    pub output_hash: Key,
    pub creator: Key,
    pub timestamp: i64,
}

/// One item of a batch: the hashes to register. The creator and the time of a
/// batch are those of the call that submits it.
#[derive(Clone, Copy, Debug, PartialEq, Eq)]
pub struct RegistrationData {
    pub prompt_hash: Key,
    pub output_hash: Key,
    pub creator: Key,
    pub timestamp: i64,
}

/// The notification sent for each successful registration write.
#[derive(Clone, Copy, Debug, PartialEq, Eq)]
pub struct ContentRegistered {
    pub prompt_hash: Key,
    pub output_hash: Key,
    pub creator: Key,
    pub timestamp: i64,
}

/// The reasons an operation of the registry is rejected.
#[derive(Clone, Copy, Debug, PartialEq, Eq)]
pub enum CustomError {
    /// No index exists at the address, or it belongs to another prompt hash.
    PromptNotFound,
    /// The record at the address belongs to another creator.
    Unauthorized,
    /// A batch holds no item.
    EmptyBatch,
    /// A batch holds more items than a call may apply.
    BatchTooLarge,
    /// The index is at capacity and the address is not yet in it.
    IndexFull,
    /// A batch names a different number of account pairs than items.
    MissingAccounts,
    /// An account is not the one derived for the creator and prompt hash, or
    /// belongs to another prompt hash.
    AddressConflict,
    /// No address exists for the seeds.
    AddressNotFound,
}

} // verus!
