//! The registry's operations as a client calls them: the accounts of each
//! call are derived from the creator and the prompt hashes.
use vstd::prelude::*;

use crate::address::{derived_item, item_derivable, prompt_index_address, registration_address};
use crate::registry::{
    batch_register_content, context_derived, event_of, batch_events, lemma_key_view_injective, register_content,
    verify_prompt, BatchRegisterContent, BatchRegisterItem, RegisterContent, Registry, VerifyPrompt, MAX_BATCH,
};
use crate::state::{ContentRegistered, CustomError, Key, RegistrationData};

verus! {

/// Whether `items` are the account pairs derived for `creator` and `data`,
/// one for one.
pub open spec fn batch_derived(
    program_id: Key,
    creator: Key,
    items: Seq<BatchRegisterItem>,
    data: Seq<RegistrationData>,
) -> bool {
    &&& items.len() == data.len()
    &&& forall|i: int| 0 <= i < data.len() ==> derived_item(program_id, creator, data[i], #[trigger] items[i])
}

/// Registers `output_hash` for `prompt_hash` on behalf of `creator` at time
/// `now`, at the accounts derived from them; `AddressNotFound` when an address
/// does not exist.
pub fn register(registry: &mut Registry, creator: Key, prompt_hash: Key, output_hash: Key, now: i64) -> (r: Result<
    ContentRegistered,
    CustomError,
>)
    requires
        old(registry).wf(),
    ensures
        final(registry).wf(),
        final(registry)@.wf(),
        !(registration_address(old(registry)@.program_id, creator, prompt_hash) is Some
            && prompt_index_address(old(registry)@.program_id, prompt_hash) is Some) ==> r
            == Err::<ContentRegistered, CustomError>(CustomError::AddressNotFound) && final(registry)@
            == old(registry)@,
        forall|ctx: RegisterContent|
            ctx.creator == creator && #[trigger] context_derived(old(registry)@.program_id, ctx, prompt_hash)
                ==> match old(registry)@.register(ctx, prompt_hash, output_hash, now) {
                Ok(s) => r == Ok::<ContentRegistered, CustomError>(
                    event_of(creator, prompt_hash, output_hash, now),
                ) && final(registry)@ == s,
                Err(e) => r == Err::<ContentRegistered, CustomError>(e) && final(registry)@ == old(
                    registry,
                )@,
            },
{
    proof {
        registry.lemma_view_wf();
    }
    let program_id = registry.program_id();
    let ctx = match RegisterContent::derive(&program_id, &creator, &prompt_hash) {
        Ok(ctx) => ctx,
        Err(e) => {
            return Err(e);
        },
    };
    let ghost c0 = ctx;
    let r = register_content(registry, &ctx, prompt_hash, output_hash, now);
    assert forall|c: RegisterContent|
        c.creator == creator && #[trigger] context_derived(old(registry)@.program_id, c, prompt_hash) implies c
        == c0 by {
        lemma_key_view_injective(c.registration, c0.registration);
        lemma_key_view_injective(c.prompt_index, c0.prompt_index);
    }
    r
}

/// The registration addresses recorded for `prompt_hash`, read from the index
/// at its derived address; `AddressNotFound` when that address does not exist.
pub fn verify(registry: &Registry, prompt_hash: Key) -> (r: Result<Vec<Key>, CustomError>)
    requires
        registry.wf(),
    ensures
        prompt_index_address(registry@.program_id, prompt_hash) is None ==> r == Err::<Vec<Key>, CustomError>(
            CustomError::AddressNotFound,
        ),
        forall|a: Key|
            prompt_index_address(registry@.program_id, prompt_hash) == Some(#[trigger] a@) ==> match registry@.verify(
                a,
                prompt_hash,
            ) {
                Ok(s) => r is Ok && r->Ok_0@ == s,
                Err(e) => r == Err::<Vec<Key>, CustomError>(e),
            },
{
    proof {
        registry.lemma_view_wf();
    }
    let program_id = registry.program_id();
    let ctx = match VerifyPrompt::derive(&program_id, &prompt_hash) {
        Ok(ctx) => ctx,
        Err(e) => {
            return Err(e);
        },
    };
    let ghost c0 = ctx;
    assert forall|a: Key| prompt_index_address(registry@.program_id, prompt_hash) == Some(#[trigger] a@) implies a
        == c0.prompt_index by {
        lemma_key_view_injective(a, c0.prompt_index);
    }
    verify_prompt(registry, &ctx, prompt_hash)
}

/// Applies a batch on behalf of `creator` at time `now`, each item at the
/// accounts derived for it, all or nothing. `EmptyBatch` when there is no
/// item, `BatchTooLarge` when there are more than `MAX_BATCH`,
/// `AddressNotFound` when an address of some item does not exist.
pub fn batch_register(
    registry: &mut Registry,
    creator: Key,
    registration_data: &Vec<RegistrationData>,
    now: i64,
) -> (r: Result<Vec<ContentRegistered>, CustomError>)
    requires
        old(registry).wf(),
    ensures
        final(registry).wf(),
        final(registry)@.wf(),
        r is Err ==> final(registry)@ == old(registry)@,
        registration_data.len() == 0 ==> r == Err::<Vec<ContentRegistered>, CustomError>(
            CustomError::EmptyBatch,
        ),
        registration_data.len() > MAX_BATCH ==> r == Err::<Vec<ContentRegistered>, CustomError>(
            CustomError::BatchTooLarge,
        ),
        0 < registration_data.len() <= MAX_BATCH && !(forall|i: int|
            0 <= i < registration_data.len() ==> item_derivable(
                old(registry)@.program_id,
                creator,
                #[trigger] registration_data@[i],
            )) ==> r == Err::<Vec<ContentRegistered>, CustomError>(CustomError::AddressNotFound),
        forall|items: Seq<BatchRegisterItem>|
            0 < registration_data.len() <= MAX_BATCH && #[trigger] batch_derived(
                old(registry)@.program_id,
                creator,
                items,
                registration_data@,
            ) ==> match old(registry)@.batch(creator, items, registration_data@, now) {
                Ok(s) => r is Ok && r->Ok_0@ == batch_events(creator, registration_data@, now)
                    && final(registry)@ == s,
                Err(e) => r == Err::<Vec<ContentRegistered>, CustomError>(e),
            },
{
    proof {
        registry.lemma_view_wf();
    }
    if registration_data.len() == 0 {
        return Err(CustomError::EmptyBatch);
    }
    if registration_data.len() > MAX_BATCH {
        return Err(CustomError::BatchTooLarge);
    }
    let program_id = registry.program_id();
    let ctx = match BatchRegisterContent::derive(&program_id, &creator, registration_data) {
        Ok(ctx) => ctx,
        Err(e) => {
            assert forall|items: Seq<BatchRegisterItem>|
                #[trigger] batch_derived(program_id, creator, items, registration_data@) implies false by {
                let i = choose|i: int|
                    0 <= i < registration_data.len() && !item_derivable(
                        program_id,
                        creator,
                        #[trigger] registration_data@[i],
                    );
                assert(derived_item(program_id, creator, registration_data@[i], items[i]));
            }
            return Err(e);
        },
    };
    let ghost c0 = ctx.items@;
    let r = batch_register_content(registry, &ctx, registration_data, now);
    assert forall|items: Seq<BatchRegisterItem>|
        #[trigger] batch_derived(old(registry)@.program_id, creator, items, registration_data@) implies items
        == c0 by {
        assert forall|i: int| 0 <= i < items.len() implies items[i] == c0[i] by {
            assert(derived_item(program_id, creator, registration_data@[i], items[i]));
            assert(derived_item(program_id, creator, registration_data@[i], c0[i]));
            lemma_key_view_injective(items[i].registration, c0[i].registration);
            lemma_key_view_injective(items[i].prompt_index, c0[i].prompt_index);
        }
        assert(items =~= c0);
    }
    r
}

} // verus!
