//! Properties of the registry, proved over its mathematical model.
use vstd::prelude::*;

use crate::index::IndexView;
use crate::registry::{
    context_derived, item_context, lemma_batch_error_stays, lemma_key_view_injective, lemma_register_keeps_wf,
    BatchRegisterItem, RegisterContent, RegistryView,
};
use crate::state::{CustomError, Key, Registration, RegistrationData};

verus! {

/// A successful registration keeps every record, with its creator and prompt
/// hash, and every index, with its prompt hash, its entries kept in order at
/// the front.
pub proof fn lemma_register_only_grows(s: RegistryView, ctx: RegisterContent, p: Key, o: Key, now: i64)
    requires
        s.register(ctx, p, o, now) is Ok,
    ensures
        ({
            let t = s.register(ctx, p, o, now)->Ok_0;
            &&& t.program_id == s.program_id
            &&& forall|k: Key|
                #[trigger] s.registrations.contains_key(k) ==> t.registrations.contains_key(k)
                    && t.registrations[k].creator == s.registrations[k].creator
                    && t.registrations[k].prompt_hash == s.registrations[k].prompt_hash
            &&& forall|a: Key|
                #[trigger] s.indexes.contains_key(a) ==> t.indexes.contains_key(a) && t.indexes[a].prompt_hash
                    == s.indexes[a].prompt_hash && s.indexes[a].registrations.len()
                    <= t.indexes[a].registrations.len() && t.indexes[a].registrations.subrange(
                    0,
                    s.indexes[a].registrations.len() as int,
                ) == s.indexes[a].registrations
        }),
{
    let t = s.register(ctx, p, o, now)->Ok_0;
    assert forall|a: Key| #[trigger] s.indexes.contains_key(a) implies t.indexes.contains_key(a)
        && t.indexes[a].prompt_hash == s.indexes[a].prompt_hash && s.indexes[a].registrations.len()
        <= t.indexes[a].registrations.len() && t.indexes[a].registrations.subrange(
        0,
        s.indexes[a].registrations.len() as int,
    ) == s.indexes[a].registrations by {
        assert(t.indexes[a].registrations.subrange(0, s.indexes[a].registrations.len() as int)
            =~= s.indexes[a].registrations);
    }
}

/// Registering the same creator, prompt hash and output hash twice at the
/// derived accounts leaves that one record with the second time, the indexes
/// untouched by the second call, and the record's address exactly once in the
/// prompt's index.
pub proof fn lemma_reregistration_idempotent(
    s: RegistryView,
    ctx: RegisterContent,
    p: Key,
    o: Key,
    first: i64,
    second: i64,
)
    requires
        s.wf(),
        context_derived(s.program_id, ctx, p),
        s.register(ctx, p, o, first) is Ok,
    ensures
        ({
            let s1 = s.register(ctx, p, o, first)->Ok_0;
            &&& s1.register(ctx, p, o, second) is Ok
            &&& s1.register(ctx, p, o, second)->Ok_0.registrations == s1.registrations.insert(
                ctx.registration,
                Registration { prompt_hash: p, output_hash: o, creator: ctx.creator, timestamp: second },
            )
            &&& s1.register(ctx, p, o, second)->Ok_0.indexes == s1.indexes
            &&& s1.indexes.contains_key(ctx.prompt_index)
            &&& s1.indexes[ctx.prompt_index].registrations.contains(ctx.registration)
            &&& s1.indexes[ctx.prompt_index].registrations.no_duplicates()
        }),
{
    lemma_register_keeps_wf(s, ctx, p, o, first);
    let s1 = s.register(ctx, p, o, first)->Ok_0;
    assert(s1.registrations.contains_key(ctx.registration));
    assert(s1.indexes.contains_key(ctx.prompt_index));
}

/// Once a creator has registered under an address, another creator's call on
/// that address is refused with `Unauthorized`.
pub proof fn lemma_other_creator_refused(
    s: RegistryView,
    ctx: RegisterContent,
    p: Key,
    o: Key,
    now: i64,
    other: Key,
    p2: Key,
    o2: Key,
    later: i64,
)
    requires
        s.register(ctx, p, o, now) is Ok,
        other != ctx.creator,
    ensures
        s.register(ctx, p, o, now)->Ok_0.register(
            RegisterContent { creator: other, ..ctx },
            p2,
            o2,
            later,
        ) == Err::<RegistryView, CustomError>(CustomError::Unauthorized),
{
}

/// Once a creator has registered a prompt hash, another creator registering
/// it at their own derived accounts, fresh and distinct from the first, with
/// room in the index, succeeds: a second record owned by them, the first
/// record unchanged, and their address added at the end of the index.
pub proof fn lemma_other_creator_own_record(
    s: RegistryView,
    ctx: RegisterContent,
    p: Key,
    o: Key,
    now: i64,
    own: RegisterContent,
    o2: Key,
    later: i64,
)
    requires
        s.wf(),
        context_derived(s.program_id, ctx, p),
        context_derived(s.program_id, own, p),
        s.register(ctx, p, o, now) is Ok,
        own.registration != ctx.registration,
        !s.registrations.contains_key(own.registration),
        s.register(ctx, p, o, now)->Ok_0.indexes[ctx.prompt_index].registrations.len()
            < s.register(ctx, p, o, now)->Ok_0.indexes[ctx.prompt_index].capacity,
    ensures
        ({
            let s1 = s.register(ctx, p, o, now)->Ok_0;
            &&& own.prompt_index == ctx.prompt_index
            &&& s1.register(own, p, o2, later) is Ok
            &&& s1.register(own, p, o2, later)->Ok_0.registrations[own.registration] == Registration {
                prompt_hash: p,
                output_hash: o2,
                creator: own.creator,
                timestamp: later,
            }
            &&& s1.register(own, p, o2, later)->Ok_0.registrations[ctx.registration]
                == s1.registrations[ctx.registration]
            &&& s1.register(own, p, o2, later)->Ok_0.indexes[ctx.prompt_index].registrations
                == s1.indexes[ctx.prompt_index].registrations.push(own.registration)
        }),
{
    lemma_key_view_injective(own.prompt_index, ctx.prompt_index);
    lemma_register_keeps_wf(s, ctx, p, o, now);
    let s1 = s.register(ctx, p, o, now)->Ok_0;
    assert(s1.registrations.contains_key(ctx.registration));
    assert(s1.indexes.contains_key(ctx.prompt_index));
    let ix = s1.indexes[ctx.prompt_index];
    assert(!ix.registrations.contains(own.registration)) by {
        if ix.registrations.contains(own.registration) {
            let i = choose|i: int| 0 <= i < ix.registrations.len() && ix.registrations[i] == own.registration;
            assert(s1.registrations.contains_key(s1.indexes[ctx.prompt_index].registrations[i]));
        }
    }
}

/// Filling an empty index with distinct addresses, no more than its capacity,
/// succeeds and leaves exactly those addresses in that order.
pub proof fn lemma_index_fills(ix: IndexView, addrs: Seq<Key>)
    requires
        ix.registrations.len() == 0,
        addrs.no_duplicates(),
        addrs.len() <= ix.capacity,
    ensures
        ix.record_all(addrs) == Ok::<IndexView, CustomError>(
            IndexView { registrations: addrs, ..ix },
        ),
    decreases addrs.len(),
{
    if addrs.len() == 0 {
        assert(ix.registrations =~= addrs);
    } else {
        let init = addrs.drop_last();
        assert(init.no_duplicates()) by {
            assert forall|i: int, j: int| 0 <= i < init.len() && 0 <= j < init.len() && i != j implies init[i]
                != init[j] by {
                assert(init[i] == addrs[i] && init[j] == addrs[j]);
            }
        }
        lemma_index_fills(ix, init);
        assert(!init.contains(addrs.last())) by {
            if init.contains(addrs.last()) {
                let k = choose|k: int| 0 <= k < init.len() && init[k] == addrs.last();
                assert(addrs[k] == addrs[addrs.len() - 1]);
            }
        }
        assert(init.push(addrs.last()) =~= addrs);
    }
}

/// Recording one distinct address more than an empty index's capacity fails
/// with `IndexFull`.
pub proof fn lemma_index_overflow_rejected(ix: IndexView, addrs: Seq<Key>)
    requires
        ix.registrations.len() == 0,
        addrs.no_duplicates(),
        addrs.len() == ix.capacity + 1,
    ensures
        ix.record_all(addrs) == Err::<IndexView, CustomError>(CustomError::IndexFull),
{
    let init = addrs.drop_last();
    assert(init.no_duplicates()) by {
        assert forall|i: int, j: int| 0 <= i < init.len() && 0 <= j < init.len() && i != j implies init[i]
            != init[j] by {
            assert(init[i] == addrs[i] && init[j] == addrs[j]);
        }
    }
    lemma_index_fills(ix, init);
    assert(!init.contains(addrs.last())) by {
        if init.contains(addrs.last()) {
            let k = choose|k: int| 0 <= k < init.len() && init[k] == addrs.last();
            assert(addrs[k] == addrs[addrs.len() - 1]);
        }
    }
}

/// After three creators register one prompt hash at their derived accounts,
/// distinct from one another, with no index for it before, each call
/// succeeding, verifying the prompt returns exactly those three addresses in
/// the order of registration.
pub proof fn lemma_verify_round_trip(
    s: RegistryView,
    a: RegisterContent,
    b: RegisterContent,
    c: RegisterContent,
    p: Key,
    oa: Key,
    ob: Key,
    oc: Key,
    now: i64,
)
    requires
        s.wf(),
        context_derived(s.program_id, a, p),
        context_derived(s.program_id, b, p),
        context_derived(s.program_id, c, p),
        !s.indexes.contains_key(a.prompt_index),
        a.registration != b.registration,
        a.registration != c.registration,
        b.registration != c.registration,
        s.register(a, p, oa, now) is Ok,
        s.register(a, p, oa, now)->Ok_0.register(b, p, ob, now) is Ok,
        s.register(a, p, oa, now)->Ok_0.register(b, p, ob, now)->Ok_0.register(c, p, oc, now) is Ok,
    ensures
        s.register(a, p, oa, now)->Ok_0.register(b, p, ob, now)->Ok_0.register(c, p, oc, now)->Ok_0.verify(
            a.prompt_index,
            p,
        ) == Ok::<Seq<Key>, CustomError>(seq![a.registration, b.registration, c.registration]),
{
    let x = a.prompt_index;
    lemma_key_view_injective(b.prompt_index, x);
    lemma_key_view_injective(c.prompt_index, x);
    if s.registrations.contains_key(a.registration) {
        assert(s.indexes.contains_key(x));
    }
    let s1 = s.register(a, p, oa, now)->Ok_0;
    lemma_register_keeps_wf(s, a, p, oa, now);
    assert(!Seq::<Key>::empty().contains(a.registration));
    assert(s1.indexes[x].registrations =~= seq![a.registration]);
    if s1.registrations.contains_key(b.registration) {
        assert(s1.indexes[x].registrations.contains(b.registration));
        assert(s1.indexes[x].registrations[0] == a.registration);
    }
    assert(!seq![a.registration].contains(b.registration)) by {
        if seq![a.registration].contains(b.registration) {
            assert(seq![a.registration][0] == a.registration);
        }
    }
    let s2 = s1.register(b, p, ob, now)->Ok_0;
    lemma_register_keeps_wf(s1, b, p, ob, now);
    assert(s2.indexes[x].registrations =~= seq![a.registration, b.registration]);
    let q = seq![a.registration, b.registration];
    assert(!q.contains(c.registration)) by {
        if q.contains(c.registration) {
            let k = choose|k: int| 0 <= k < q.len() && q[k] == c.registration;
            assert(k == 0 || k == 1);
        }
    }
    if s2.registrations.contains_key(c.registration) {
        assert(s2.indexes[x].registrations.contains(c.registration));
    }
    let s3 = s2.register(c, p, oc, now)->Ok_0;
    assert(s3.indexes[x].registrations =~= seq![a.registration, b.registration, c.registration]);
}

/// A batch in which the item at position `k` is refused, after the items
/// before it were applied, fails as a whole with that item's error; a failed
/// batch leaves the registry as it was.
pub proof fn lemma_batch_all_or_nothing(
    s: RegistryView,
    creator: Key,
    items: Seq<BatchRegisterItem>,
    data: Seq<RegistrationData>,
    k: int,
    now: i64,
)
    requires
        0 <= k < data.len(),
        s.batch(creator, items, data.take(k), now) is Ok,
        s.batch(creator, items, data.take(k), now)->Ok_0.register(
            item_context(creator, items[k]),
            data[k].prompt_hash,
            data[k].output_hash,
            now,
        ) is Err,
    ensures
        s.batch(creator, items, data, now) == s.batch(creator, items, data.take(k), now)->Ok_0.register(
            item_context(creator, items[k]),
            data[k].prompt_hash,
            data[k].output_hash,
            now,
        ),
{
    assert(data.take(k + 1).drop_last() =~= data.take(k));
    lemma_batch_error_stays(s, creator, items, data, k + 1, now);
}

/// After a successful batch at derived accounts on a well-formed registry, the
/// registry is still well-formed, and each item's record is owned by the
/// batch's creator, holds the item's prompt hash, and is listed exactly once
/// in the index at the item's derived index address.
pub proof fn lemma_batch_persists(
    s: RegistryView,
    creator: Key,
    items: Seq<BatchRegisterItem>,
    data: Seq<RegistrationData>,
    now: i64,
)
    requires
        s.wf(),
        items.len() >= data.len(),
        forall|i: int|
            0 <= i < data.len() ==> context_derived(
                s.program_id,
                item_context(creator, #[trigger] items[i]),
                data[i].prompt_hash,
            ),
        s.batch(creator, items, data, now) is Ok,
    ensures
        ({
            let t = s.batch(creator, items, data, now)->Ok_0;
            &&& t.wf()
            &&& t.program_id == s.program_id
            &&& forall|i: int|
                0 <= i < data.len() ==> {
                    let k = #[trigger] items[i].registration;
                    let a = items[i].prompt_index;
                    &&& t.registrations.contains_key(k)
                    &&& t.registrations[k].creator == creator
                    &&& t.registrations[k].prompt_hash == data[i].prompt_hash
                    &&& t.indexes.contains_key(a)
                    &&& t.indexes[a].registrations.contains(k)
                    &&& t.indexes[a].registrations.no_duplicates()
                }
        }),
    decreases data.len(),
{
    if data.len() > 0 {
        let n = data.len() - 1;
        let init = data.drop_last();
        assert forall|i: int| 0 <= i < init.len() implies context_derived(
            s.program_id,
            item_context(creator, #[trigger] items[i]),
            init[i].prompt_hash,
        ) by {
            assert(init[i] == data[i]);
        }
        lemma_batch_persists(s, creator, items, init, now);
        let t0 = s.batch(creator, items, init, now)->Ok_0;
        let ctx = item_context(creator, items[n]);
        assert(context_derived(s.program_id, item_context(creator, items[n]), data[n].prompt_hash));
        assert(data.last() == data[n]);
        lemma_register_keeps_wf(t0, ctx, data[n].prompt_hash, data[n].output_hash, now);
        lemma_register_only_grows(t0, ctx, data[n].prompt_hash, data[n].output_hash, now);
        let t = t0.register(ctx, data[n].prompt_hash, data[n].output_hash, now)->Ok_0;
        assert forall|i: int| 0 <= i < data.len() implies {
            let k = #[trigger] items[i].registration;
            let a = items[i].prompt_index;
            &&& t.registrations.contains_key(k)
            &&& t.registrations[k].creator == creator
            &&& t.registrations[k].prompt_hash == data[i].prompt_hash
            &&& t.indexes.contains_key(a)
            &&& t.indexes[a].registrations.contains(k)
            &&& t.indexes[a].registrations.no_duplicates()
        } by {
            let k = items[i].registration;
            let a = items[i].prompt_index;
            if i < n {
                assert(init[i] == data[i]);
                assert(t0.registrations.contains_key(k));
            }
            assert(context_derived(s.program_id, item_context(creator, items[i]), data[i].prompt_hash));
            assert(t.registrations.contains_key(k));
            assert(t.indexes.contains_key(a));
        }
    }
}

/// A batch of two identical items on a well-formed registry, when it
/// succeeds, leaves the indexes as the first item left them: the second item
/// only refreshes the record.
pub proof fn lemma_batch_identical_items(
    s: RegistryView,
    creator: Key,
    item: BatchRegisterItem,
    d: RegistrationData,
    now: i64,
)
    requires
        s.wf(),
        s.batch(creator, seq![item, item], seq![d, d], now) is Ok,
    ensures
        ({
            let s1 = s.register(item_context(creator, item), d.prompt_hash, d.output_hash, now);
            &&& s1 is Ok
            &&& s.batch(creator, seq![item, item], seq![d, d], now)->Ok_0.indexes == s1->Ok_0.indexes
        }),
{
    let items = seq![item, item];
    let data = seq![d, d];
    assert(data.drop_last() =~= seq![d]);
    assert(seq![d].drop_last() =~= Seq::<RegistrationData>::empty());
    let ctx = item_context(creator, item);
    let s1 = s.register(ctx, d.prompt_hash, d.output_hash, now);
    assert(s.batch(creator, items, Seq::<RegistrationData>::empty(), now) == Ok::<RegistryView, CustomError>(s));
    assert(seq![d].last() == d);
    assert(data.last() == d);
    assert(items[0] == item && items[1] == item);
    assert(s.batch(creator, items, seq![d], now) == s1);
    assert(s.batch(creator, items, data, now) == s1->Ok_0.register(ctx, d.prompt_hash, d.output_hash, now));
    lemma_reregistration_idempotent(s, ctx, d.prompt_hash, d.output_hash, now, now);
}

/// Two creators registering one prompt hash at their own fresh, distinct
/// derived accounts, in either order, each call succeeding, leave its index
/// with the same addresses, the same number of them, differing only in order.
pub proof fn lemma_registration_order_independent(
    s: RegistryView,
    a: RegisterContent,
    b: RegisterContent,
    p: Key,
    oa: Key,
    ob: Key,
    now: i64,
)
    requires
        s.wf(),
        context_derived(s.program_id, a, p),
        context_derived(s.program_id, b, p),
        a.registration != b.registration,
        !s.registrations.contains_key(a.registration),
        !s.registrations.contains_key(b.registration),
        s.register(a, p, oa, now) is Ok,
        s.register(a, p, oa, now)->Ok_0.register(b, p, ob, now) is Ok,
        s.register(b, p, ob, now) is Ok,
        s.register(b, p, ob, now)->Ok_0.register(a, p, oa, now) is Ok,
    ensures
        ({
            let ab = s.register(a, p, oa, now)->Ok_0.register(b, p, ob, now)->Ok_0.indexes[a.prompt_index];
            let ba = s.register(b, p, ob, now)->Ok_0.register(a, p, oa, now)->Ok_0.indexes[a.prompt_index];
            &&& ab.prompt_hash == ba.prompt_hash
            &&& ab.registrations.len() == ba.registrations.len()
            &&& forall|x: Key| ab.registrations.contains(x) == ba.registrations.contains(x)
        }),
{
    let x = a.prompt_index;
    lemma_key_view_injective(b.prompt_index, x);
    let base = s.index_at(x).registrations;
    assert(!base.contains(a.registration)) by {
        if base.contains(a.registration) {
            let i = choose|i: int| 0 <= i < base.len() && base[i] == a.registration;
            assert(s.indexes.contains_key(x));
            assert(s.registrations.contains_key(s.indexes[x].registrations[i]));
        }
    }
    assert(!base.contains(b.registration)) by {
        if base.contains(b.registration) {
            let i = choose|i: int| 0 <= i < base.len() && base[i] == b.registration;
            assert(s.indexes.contains_key(x));
            assert(s.registrations.contains_key(s.indexes[x].registrations[i]));
        }
    }
    assert(!base.push(a.registration).contains(b.registration)) by {
        if base.push(a.registration).contains(b.registration) {
            let i = choose|i: int| 0 <= i < base.len() + 1 && base.push(a.registration)[i] == b.registration;
            if i < base.len() {
                assert(base[i] == b.registration);
            }
        }
    }
    assert(!base.push(b.registration).contains(a.registration)) by {
        if base.push(b.registration).contains(a.registration) {
            let i = choose|i: int| 0 <= i < base.len() + 1 && base.push(b.registration)[i] == a.registration;
            if i < base.len() {
                assert(base[i] == a.registration);
            }
        }
    }
    let ab = s.register(a, p, oa, now)->Ok_0.register(b, p, ob, now)->Ok_0.indexes[x];
    let ba = s.register(b, p, ob, now)->Ok_0.register(a, p, oa, now)->Ok_0.indexes[x];
    assert(ab.registrations == base.push(a.registration).push(b.registration));
    assert(ba.registrations == base.push(b.registration).push(a.registration));
    assert forall|y: Key| ab.registrations.contains(y) == ba.registrations.contains(y) by {
        if ab.registrations.contains(y) {
            let i = choose|i: int| 0 <= i < ab.registrations.len() && ab.registrations[i] == y;
            if i < base.len() {
                assert(ba.registrations[i] == y);
            } else if i == base.len() {
                assert(ba.registrations[base.len() as int + 1] == y);
            } else {
                assert(ba.registrations[base.len() as int] == y);
            }
        }
        if ba.registrations.contains(y) {
            let i = choose|i: int| 0 <= i < ba.registrations.len() && ba.registrations[i] == y;
            if i < base.len() {
                assert(ab.registrations[i] == y);
            } else if i == base.len() {
                assert(ab.registrations[base.len() as int + 1] == y);
            } else {
                assert(ab.registrations[base.len() as int] == y);
            }
        }
    }
}

} // verus!
