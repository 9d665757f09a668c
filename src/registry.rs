//! The registry: registrations and prompt indexes stored by address, with the
//! register, verify and batch operations.
use vstd::prelude::*;

use crate::address::{prompt_index_address, registration_address};
use crate::index::{lemma_record_keeps_wf, IndexView, PromptIndex, DEFAULT_CAPACITY};
use crate::state::{keys_equal, ContentRegistered, CustomError, Key, Registration, RegistrationData};

verus! {

/// The most items one batch may hold.
pub const MAX_BATCH: usize = 10;

/// The accounts of a single registration: the record's address, the address of
/// the index of its prompt, and the creator making the call.
#[derive(Clone, Copy, Debug, PartialEq, Eq)]
pub struct RegisterContent {
    pub registration: Key,
    pub prompt_index: Key,
    pub creator: Key,
}

/// The account read by a verification: the address of a prompt's index.
#[derive(Clone, Copy, Debug, PartialEq, Eq)]
pub struct VerifyPrompt {
    pub prompt_index: Key,
}

/// The accounts of one item of a batch: its record and its prompt's index.
#[derive(Clone, Copy, Debug, PartialEq, Eq)]
pub struct BatchRegisterItem {
    pub registration: Key,
    pub prompt_index: Key,
}

/// The accounts of a batch: the creator making the call, and one account pair
/// for each item, in the order of the items.
#[derive(Clone, Debug, PartialEq, Eq)]
pub struct BatchRegisterContent {
    pub creator: Key,
    pub items: Vec<BatchRegisterItem>,
}

/// The context under which a batch applies one item.
pub open spec fn item_context(creator: Key, item: BatchRegisterItem) -> RegisterContent {
    RegisterContent { registration: item.registration, prompt_index: item.prompt_index, creator }
}

/// The notification for a write of `p` and `o` by `creator` at `now`.
pub open spec fn event_of(creator: Key, p: Key, o: Key, now: i64) -> ContentRegistered {
    ContentRegistered { prompt_hash: p, output_hash: o, creator, timestamp: now }
}

/// The notifications of a batch, one per item in order.
pub open spec fn batch_events(creator: Key, data: Seq<RegistrationData>, now: i64) -> Seq<
    ContentRegistered,
> {
    Seq::new(data.len(), |i: int| event_of(creator, data[i].prompt_hash, data[i].output_hash, now))
}

/// What the registry holds: records and indexes by address, the program whose
/// derived addresses locate them, and the capacity given to new indexes.
pub struct RegistryView {
    pub program_id: Key,
    pub registrations: Map<Key, Registration>,
    pub indexes: Map<Key, IndexView>,
    pub capacity: nat,
}

/// Whether the accounts of `ctx` sit at the addresses derived for its creator
/// and the prompt hash `p`.
pub open spec fn context_derived(program_id: Key, ctx: RegisterContent, p: Key) -> bool {
    &&& registration_address(program_id, ctx.creator, p) == Some(ctx.registration@)
    &&& prompt_index_address(program_id, p) == Some(ctx.prompt_index@)
}

/// Two keys with the same bytes are the same key.
pub proof fn lemma_key_view_injective(a: Key, b: Key)
    requires
        a@ == b@,
    ensures
        a == b,
{
    assert forall|i: int| 0 <= i < 32 implies a[i] == b[i] by {
        assert(a@[i] == b@[i]);
    }
    assert(a =~= b);
}

impl RegistryView {
    /// The registry's invariant:
    /// - every stored index is within capacity, free of duplicates and not empty;
    /// - every address an index lists holds a record of the index's prompt hash;
    /// - every record is listed in the index at the address derived from its
    ///   prompt hash, and that index belongs to that prompt hash.
    pub open spec fn wf(self) -> bool {
        &&& forall|a: Key|
            #[trigger] self.indexes.contains_key(a) ==> self.indexes[a].wf()
                && self.indexes[a].registrations.len() > 0
        &&& forall|a: Key, i: int|
            self.indexes.contains_key(a) && 0 <= i < self.indexes[a].registrations.len()
                ==> self.registrations.contains_key(#[trigger] self.indexes[a].registrations[i])
                && self.registrations[self.indexes[a].registrations[i]].prompt_hash
                == self.indexes[a].prompt_hash
        &&& forall|k: Key, a: Key|
            #![trigger self.registrations.contains_key(k), self.indexes.contains_key(a)]
            self.registrations.contains_key(k) && prompt_index_address(
                self.program_id,
                self.registrations[k].prompt_hash,
            ) == Some(a@) ==> self.indexes.contains_key(a) && self.indexes[a].prompt_hash
                == self.registrations[k].prompt_hash && self.indexes[a].registrations.contains(k)
    }

    /// The index at `a`, or a fresh one when none is stored there.
    pub open spec fn index_at(self, a: Key) -> IndexView {
        if self.indexes.contains_key(a) {
            self.indexes[a]
        } else {
            IndexView::empty(self.capacity)
        }
    }

    /// One registration. A record at the address owned by another creator is
    /// refused with `Unauthorized`. The accounts must then be those derived
    /// for the caller and `p`: `AddressNotFound` when a derived address does
    /// not exist, `AddressConflict` when an account differs from it. An
    /// existing record is updated (new output hash and time) when it holds
    /// `p`, else refused with `AddressConflict`. A new record is created and
    /// its address recorded in the prompt's index, which is first bound to
    /// `p`; `AddressConflict` when that index belongs to another prompt hash.
    pub open spec fn register(self, ctx: RegisterContent, p: Key, o: Key, now: i64) -> Result<
        RegistryView,
        CustomError,
    > {
        if self.registrations.contains_key(ctx.registration) && self.registrations[ctx.registration].creator
            != ctx.creator {
            Err(CustomError::Unauthorized)
        } else if !(registration_address(self.program_id, ctx.creator, p) is Some && prompt_index_address(
            self.program_id,
            p,
        ) is Some) {
            Err(CustomError::AddressNotFound)
        } else if !context_derived(self.program_id, ctx, p) {
            Err(CustomError::AddressConflict)
        } else if self.registrations.contains_key(ctx.registration) {
            let rec = self.registrations[ctx.registration];
            if rec.prompt_hash != p {
                Err(CustomError::AddressConflict)
            } else {
                Ok(
                    RegistryView {
                        registrations: self.registrations.insert(
                            ctx.registration,
                            Registration {
                                prompt_hash: rec.prompt_hash,
                                output_hash: o,
                                creator: rec.creator,
                                timestamp: now,
                            },
                        ),
                        ..self
                    },
                )
            }
        } else if self.indexes.contains_key(ctx.prompt_index) && self.indexes[ctx.prompt_index].prompt_hash
            != p {
            Err(CustomError::AddressConflict)
        } else {
            match self.index_at(ctx.prompt_index).initialized(p).record(ctx.registration) {
                Ok(ix) => Ok(
                    RegistryView {
                        registrations: self.registrations.insert(
                            ctx.registration,
                            Registration { prompt_hash: p, output_hash: o, creator: ctx.creator, timestamp: now },
                        ),
                        indexes: self.indexes.insert(ctx.prompt_index, ix),
                        ..self
                    },
                ),
                Err(e) => Err(e),
            }
        }
    }

    /// The addresses stored for `p` in the index at `a`.
    pub open spec fn verify(self, a: Key, p: Key) -> Result<Seq<Key>, CustomError> {
        if self.indexes.contains_key(a) {
            self.indexes[a].verify(p)
        } else {
            Err(CustomError::PromptNotFound)
        }
    }

    /// The items of a batch applied in order, each under its account pair,
    /// stopping at the first failure.
    pub open spec fn batch(
        self,
        creator: Key,
        items: Seq<BatchRegisterItem>,
        data: Seq<RegistrationData>,
        now: i64,
    ) -> Result<RegistryView, CustomError>
        decreases data.len(),
    {
        if data.len() == 0 {
            Ok(self)
        } else {
            match self.batch(creator, items, data.drop_last(), now) {
                Ok(s) => s.register(
                    item_context(creator, items[data.len() - 1]),
                    data.last().prompt_hash,
                    data.last().output_hash,
                    now,
                ),
                Err(e) => Err(e),
            }
        }
    }
}

/// A failure part way through a batch is the failure of the whole batch.
pub proof fn lemma_batch_error_stays(
    s: RegistryView,
    creator: Key,
    items: Seq<BatchRegisterItem>,
    data: Seq<RegistrationData>,
    k: int,
    now: i64,
)
    requires
        0 <= k <= data.len(),
        s.batch(creator, items, data.take(k), now) is Err,
    ensures
        s.batch(creator, items, data, now) == s.batch(creator, items, data.take(k), now),
    decreases data.len(),
{
    if data.len() == k {
        assert(data.take(k) =~= data);
    } else {
        assert(data.drop_last().take(k) =~= data.take(k));
        lemma_batch_error_stays(s, creator, items, data.drop_last(), k, now);
    }
}

/// A successful registration keeps the registry's invariant.
pub proof fn lemma_register_keeps_wf(s: RegistryView, ctx: RegisterContent, p: Key, o: Key, now: i64)
    requires
        s.wf(),
        s.register(ctx, p, o, now) is Ok,
    ensures
        s.register(ctx, p, o, now)->Ok_0.wf(),
{
    let t = s.register(ctx, p, o, now)->Ok_0;
    if s.registrations.contains_key(ctx.registration) {
        assert forall|a: Key, i: int|
            t.indexes.contains_key(a) && 0 <= i < t.indexes[a].registrations.len() implies t.registrations.contains_key(
            #[trigger] t.indexes[a].registrations[i],
        ) && t.registrations[t.indexes[a].registrations[i]].prompt_hash == t.indexes[a].prompt_hash by {
            assert(s.registrations.contains_key(s.indexes[a].registrations[i]));
        }
        assert forall|k: Key, a: Key|
            #![trigger t.registrations.contains_key(k), t.indexes.contains_key(a)]
            t.registrations.contains_key(k) && prompt_index_address(
                t.program_id,
                t.registrations[k].prompt_hash,
            ) == Some(a@) implies t.indexes.contains_key(a) && t.indexes[a].prompt_hash
            == t.registrations[k].prompt_hash && t.indexes[a].registrations.contains(k) by {
            assert(s.registrations.contains_key(k));
            assert(s.registrations[k].prompt_hash == t.registrations[k].prompt_hash);
            assert(s.indexes.contains_key(a));
        }
    } else {
        let pi = ctx.prompt_index;
        let reg = ctx.registration;
        let ix0 = s.index_at(pi);
        let ix1 = ix0.initialized(p);
        let ix2 = t.indexes[pi];
        if s.indexes.contains_key(pi) {
            assert(ix0.wf());
        }
        assert(ix1.wf());
        lemma_record_keeps_wf(ix1, reg);
        assert(!ix0.registrations.contains(reg)) by {
            if ix0.registrations.contains(reg) {
                let i = choose|i: int| 0 <= i < ix0.registrations.len() && ix0.registrations[i] == reg;
                assert(s.indexes.contains_key(pi));
                assert(s.registrations.contains_key(s.indexes[pi].registrations[i]));
            }
        }
        assert(ix1.prompt_hash == p);
        assert(ix2.registrations == ix0.registrations.push(reg));
        assert(ix2.prompt_hash == p);
        assert forall|a: Key| #[trigger] t.indexes.contains_key(a) implies t.indexes[a].wf()
            && t.indexes[a].registrations.len() > 0 by {
            if a != pi {
                assert(s.indexes.contains_key(a));
            }
        }
        assert forall|a: Key, i: int|
            t.indexes.contains_key(a) && 0 <= i < t.indexes[a].registrations.len() implies t.registrations.contains_key(
            #[trigger] t.indexes[a].registrations[i],
        ) && t.registrations[t.indexes[a].registrations[i]].prompt_hash == t.indexes[a].prompt_hash by {
            if a == pi {
                if i < ix0.registrations.len() {
                    assert(s.indexes.contains_key(pi));
                    assert(ix2.registrations[i] == s.indexes[pi].registrations[i]);
                    assert(s.registrations.contains_key(s.indexes[pi].registrations[i]));
                }
            } else {
                assert(s.registrations.contains_key(s.indexes[a].registrations[i]));
                assert(s.indexes[a].registrations[i] != reg);
            }
        }
        assert forall|k: Key, a: Key|
            #![trigger t.registrations.contains_key(k), t.indexes.contains_key(a)]
            t.registrations.contains_key(k) && prompt_index_address(
                t.program_id,
                t.registrations[k].prompt_hash,
            ) == Some(a@) implies t.indexes.contains_key(a) && t.indexes[a].prompt_hash
            == t.registrations[k].prompt_hash && t.indexes[a].registrations.contains(k) by {
            if k == reg {
                lemma_key_view_injective(a, pi);
                assert(ix2.registrations[ix0.registrations.len() as int] == reg);
            } else {
                assert(s.registrations.contains_key(k));
                assert(s.indexes.contains_key(a));
                if a == pi {
                    let j = choose|j: int| 0 <= j < ix0.registrations.len() && ix0.registrations[j] == k;
                    assert(ix2.registrations[j] == k);
                }
            }
        }
    }
}

/// The store of registrations and prompt indexes, each by address.
pub struct Registry {
    program_id: Key,
    records: Vec<(Key, Registration)>,
    indexes: Vec<(Key, PromptIndex)>,
    capacity: usize,
    regs: Ghost<Map<Key, Registration>>,
    idxs: Ghost<Map<Key, IndexView>>,
}

impl View for Registry {
    type V = RegistryView;

    closed spec fn view(&self) -> RegistryView {
        RegistryView {
            program_id: self.program_id,
            registrations: self.regs@,
            indexes: self.idxs@,
            capacity: self.capacity as nat,
        }
    }
}

impl Registry {
    /// The stored entries match the model, one entry per address, and the
    /// model satisfies the registry's invariant.
    pub closed spec fn wf(&self) -> bool {
        &&& forall|i: int, j: int|
            0 <= i < j < self.records.len() ==> #[trigger] self.records@[i].0 != #[trigger] self.records@[j].0
        &&& forall|i: int|
            0 <= i < self.records.len() ==> self.regs@.contains_key(#[trigger] self.records@[i].0)
                && self.regs@[self.records@[i].0] == self.records@[i].1
        &&& forall|a: Key|
            #[trigger] self.regs@.contains_key(a) ==> exists|i: int|
                0 <= i < self.records.len() && self.records@[i].0 == a
        &&& forall|i: int, j: int|
            0 <= i < j < self.indexes.len() ==> #[trigger] self.indexes@[i].0 != #[trigger] self.indexes@[j].0
        &&& forall|i: int|
            0 <= i < self.indexes.len() ==> self.idxs@.contains_key(#[trigger] self.indexes@[i].0)
                && self.idxs@[self.indexes@[i].0] == self.indexes@[i].1@
        &&& forall|a: Key|
            #[trigger] self.idxs@.contains_key(a) ==> exists|i: int|
                0 <= i < self.indexes.len() && self.indexes@[i].0 == a
        &&& self@.wf()
    }

    /// An empty registry of the program `program_id`, whose indexes hold at
    /// most `capacity` addresses.
    pub fn with_capacity(program_id: Key, capacity: usize) -> (r: Registry)
        ensures
            r.wf(),
            r@ == (RegistryView {
                program_id,
                registrations: Map::empty(),
                indexes: Map::empty(),
                capacity: capacity as nat,
            }),
    {
        Registry {
            program_id,
            records: Vec::new(),
            indexes: Vec::new(),
            capacity,
            regs: Ghost(Map::empty()),
            idxs: Ghost(Map::empty()),
        }
    }

    /// An empty registry of the program `program_id`, whose indexes have the
    /// default capacity.
    pub fn new(program_id: Key) -> (r: Registry)
        ensures
            r.wf(),
            r@ == (RegistryView {
                program_id,
                registrations: Map::empty(),
                indexes: Map::empty(),
                capacity: DEFAULT_CAPACITY as nat,
            }),
    {
        Registry::with_capacity(program_id, DEFAULT_CAPACITY)
    }

    /// A well-formed registry's model satisfies the registry's invariant.
    pub proof fn lemma_view_wf(&self)
        requires
            self.wf(),
        ensures
            self@.wf(),
    {
    }

    /// The program whose derived addresses locate the accounts.
    pub fn program_id(&self) -> (r: Key)
        ensures
            r == self@.program_id,
    {
        self.program_id
    }

    fn find_record(&self, a: &Key) -> (r: Option<usize>)
        requires
            self.wf(),
        ensures
            match r {
                Some(i) => i < self.records.len() && self.records@[i as int].0 == *a
                    && self@.registrations.contains_key(*a),
                None => !self@.registrations.contains_key(*a),
            },
    {
        let mut i: usize = 0;
        while i < self.records.len()
            invariant
                self.wf(),
                0 <= i <= self.records.len(),
                forall|j: int| 0 <= j < i ==> self.records@[j].0 != *a,
            decreases self.records.len() - i,
        {
            if keys_equal(&self.records[i].0, a) {
                assert(self.regs@.contains_key(self.records@[i as int].0));
                return Some(i);
            }
            i = i + 1;
        }
        None
    }

    fn find_index(&self, a: &Key) -> (r: Option<usize>)
        requires
            self.wf(),
        ensures
            match r {
                Some(i) => i < self.indexes.len() && self.indexes@[i as int].0 == *a
                    && self@.indexes.contains_key(*a),
                None => !self@.indexes.contains_key(*a),
            },
    {
        let mut i: usize = 0;
        while i < self.indexes.len()
            invariant
                self.wf(),
                0 <= i <= self.indexes.len(),
                forall|j: int| 0 <= j < i ==> self.indexes@[j].0 != *a,
            decreases self.indexes.len() - i,
        {
            if keys_equal(&self.indexes[i].0, a) {
                assert(self.idxs@.contains_key(self.indexes@[i as int].0));
                return Some(i);
            }
            i = i + 1;
        }
        None
    }

    /// The record stored at the address, if any.
    pub fn registration(&self, a: &Key) -> (r: Option<Registration>)
        requires
            self.wf(),
        ensures
            r == (if self@.registrations.contains_key(*a) {
                Some(self@.registrations[*a])
            } else {
                None
            }),
    {
        match self.find_record(a) {
            Some(i) => Some(self.records[i].1),
            None => None,
        }
    }

    /// A copy of the index stored at the address, if any.
    pub fn prompt_index(&self, a: &Key) -> (r: Option<PromptIndex>)
        requires
            self.wf(),
        ensures
            r is Some == self@.indexes.contains_key(*a),
            r is Some ==> r->Some_0@ == self@.indexes[*a],
    {
        match self.find_index(a) {
            Some(i) => Some(self.indexes[i].1.duplicate()),
            None => None,
        }
    }

    /// A copy of the whole registry.
    fn snapshot(&self) -> (r: Registry)
        requires
            self.wf(),
        ensures
            r.wf(),
            r@ == self@,
    {
        let mut records: Vec<(Key, Registration)> = Vec::new();
        let mut i: usize = 0;
        while i < self.records.len()
            invariant
                self.wf(),
                0 <= i <= self.records.len(),
                records@ == self.records@.take(i as int),
            decreases self.records.len() - i,
        {
            records.push(self.records[i]);
            i = i + 1;
            assert(records@ =~= self.records@.take(i as int));
        }
        assert(self.records@.take(self.records@.len() as int) =~= self.records@);
        let mut indexes: Vec<(Key, PromptIndex)> = Vec::new();
        let mut j: usize = 0;
        while j < self.indexes.len()
            invariant
                self.wf(),
                0 <= j <= self.indexes.len(),
                records@ == self.records@,
                indexes.len() == j,
                forall|k: int|
                    0 <= k < j ==> #[trigger] indexes@[k].0 == self.indexes@[k].0 && indexes@[k].1@
                        == self.indexes@[k].1@,
            decreases self.indexes.len() - j,
        {
            let ix = self.indexes[j].1.duplicate();
            let ghost before = indexes@;
            indexes.push((self.indexes[j].0, ix));
            assert forall|k: int| 0 <= k < j + 1 implies #[trigger] indexes@[k].0 == self.indexes@[k].0
                && indexes@[k].1@ == self.indexes@[k].1@ by {
                if k < j {
                    assert(indexes@[k] == before[k]);
                }
            }
            j = j + 1;
        }
        let r = Registry {
            program_id: self.program_id,
            records,
            indexes,
            capacity: self.capacity,
            regs: Ghost(self.regs@),
            idxs: Ghost(self.idxs@),
        };
        assert forall|a: int, b: int| 0 <= a < b < r.indexes.len() implies #[trigger] r.indexes@[a].0
            != #[trigger] r.indexes@[b].0 by {
            assert(self.indexes@[a].0 != self.indexes@[b].0);
        }
        assert forall|k: int| 0 <= k < r.indexes.len() implies r.idxs@.contains_key(
            #[trigger] r.indexes@[k].0,
        ) && r.idxs@[r.indexes@[k].0] == r.indexes@[k].1@ by {
            assert(self.idxs@.contains_key(self.indexes@[k].0));
        }
        assert forall|a: Key| #[trigger] r.idxs@.contains_key(a) implies exists|k: int|
            0 <= k < r.indexes.len() && r.indexes@[k].0 == a by {
            let k = choose|k: int| 0 <= k < self.indexes.len() && self.indexes@[k].0 == a;
            assert(r.indexes@[k].0 == a);
        }
        assert forall|a: Key| #[trigger] r.regs@.contains_key(a) implies exists|k: int|
            0 <= k < r.records.len() && r.records@[k].0 == a by {
            let k = choose|k: int| 0 <= k < self.records.len() && self.records@[k].0 == a;
            assert(r.records@[k].0 == a);
        }
        assert(r@ == self@);
        r
    }

    /// Applies one registration as `RegistryView::register` describes; on
    /// failure nothing changes.
    pub(crate) fn upsert(&mut self, ctx: &RegisterContent, p: Key, o: Key, now: i64) -> (r: Result<
        ContentRegistered,
        CustomError,
    >)
        requires
            old(self).wf(),
        ensures
            final(self).wf(),
            match old(self)@.register(*ctx, p, o, now) {
                Ok(s) => r == Ok::<ContentRegistered, CustomError>(event_of(ctx.creator, p, o, now))
                    && final(self)@ == s,
                Err(e) => r == Err::<ContentRegistered, CustomError>(e) && final(self)@ == old(self)@,
            },
    {
        let event = ContentRegistered { prompt_hash: p, output_hash: o, creator: ctx.creator, timestamp: now };
        let found_record = self.find_record(&ctx.registration);
        match found_record {
            Some(i) => {
                if !keys_equal(&self.records[i].1.creator, &ctx.creator) {
                    return Err(CustomError::Unauthorized);
                }
            },
            None => {},
        }
        match RegisterContent::derive(&self.program_id, &ctx.creator, &p) {
            Ok(expected) => {
                if !keys_equal(&expected.registration, &ctx.registration) || !keys_equal(
                    &expected.prompt_index,
                    &ctx.prompt_index,
                ) {
                    proof {
                        if context_derived(self.program_id, *ctx, p) {
                            lemma_key_view_injective(expected.registration, ctx.registration);
                            lemma_key_view_injective(expected.prompt_index, ctx.prompt_index);
                        }
                    }
                    return Err(CustomError::AddressConflict);
                }
            },
            Err(e) => {
                return Err(e);
            },
        }
        match found_record {
            Some(i) => {
                let rec = self.records[i].1;
                if !keys_equal(&rec.prompt_hash, &p) {
                    return Err(CustomError::AddressConflict);
                }
                let updated = Registration {
                    prompt_hash: rec.prompt_hash,
                    output_hash: o,
                    creator: rec.creator,
                    timestamp: now,
                };
                let ghost old_records = self.records@;
                self.records.set(i, (ctx.registration, updated));
                self.regs = Ghost(self.regs@.insert(ctx.registration, updated));
                assert forall|k: int| 0 <= k < self.records.len() implies #[trigger] self.records@[k].0
                    == old_records[k].0 by {}
                assert forall|a: Key| #[trigger] self.idxs@.contains_key(a) implies exists|k: int|
                    0 <= k < self.indexes.len() && self.indexes@[k].0 == a by {
                    assert(old(self).idxs@.contains_key(a));
                }
                assert forall|a: int, b: int| 0 <= a < b < self.records.len() implies #[trigger] self.records@[a].0
                    != #[trigger] self.records@[b].0 by {
                    assert(old_records[a].0 != old_records[b].0);
                }
                assert forall|k: int| 0 <= k < self.records.len() implies self.regs@.contains_key(
                    #[trigger] self.records@[k].0,
                ) && self.regs@[self.records@[k].0] == self.records@[k].1 by {
                    if k != i {
                        assert(old_records[k].0 != old_records[i as int].0);
                        assert(old_records[k] == self.records@[k]);
                    }
                }
                assert forall|a: Key| #[trigger] self.regs@.contains_key(a) implies exists|k: int|
                    0 <= k < self.records.len() && self.records@[k].0 == a by {
                    if a != ctx.registration {
                        let k = choose|k: int| 0 <= k < old_records.len() && old_records[k].0 == a;
                        assert(self.records@[k].0 == a);
                    } else {
                        assert(self.records@[i as int].0 == a);
                    }
                }
                proof {
                    lemma_register_keeps_wf(old(self)@, *ctx, p, o, now);
                }
                Ok(event)
            },
            None => {
                let found = self.find_index(&ctx.prompt_index);
                match found {
                    Some(j) => {
                        if !keys_equal(&self.indexes[j].1.prompt_hash, &p) {
                            return Err(CustomError::AddressConflict);
                        }
                    },
                    None => {},
                }
                let mut ix = match found {
                    Some(j) => self.indexes[j].1.duplicate(),
                    None => PromptIndex::with_capacity(self.capacity),
                };
                ix.ensure_initialized(&p);
                match ix.record(&ctx.registration) {
                    Ok(()) => {},
                    Err(e) => {
                        return Err(e);
                    },
                }
                let ghost old_indexes = self.indexes@;
                let ghost new_view = ix@;
                match found {
                    Some(j) => {
                        self.indexes.set(j, (ctx.prompt_index, ix));
                    },
                    None => {
                        self.indexes.push((ctx.prompt_index, ix));
                    },
                }
                self.idxs = Ghost(self.idxs@.insert(ctx.prompt_index, new_view));
                assert forall|k: int| 0 <= k < old_indexes.len() implies #[trigger] self.indexes@[k].0
                    == old_indexes[k].0 by {}
                assert forall|a: int, b: int| 0 <= a < b < self.indexes.len() implies #[trigger] self.indexes@[a].0
                    != #[trigger] self.indexes@[b].0 by {
                    if b < old_indexes.len() {
                        assert(old_indexes[a].0 != old_indexes[b].0);
                    }
                }
                assert forall|k: int| 0 <= k < self.indexes.len() implies self.idxs@.contains_key(
                    #[trigger] self.indexes@[k].0,
                ) && self.idxs@[self.indexes@[k].0] == self.indexes@[k].1@ by {
                    if k < old_indexes.len() && self.indexes@[k].0 != ctx.prompt_index {
                        assert(old_indexes[k] == self.indexes@[k]);
                    }
                }
                let ghost old_records = self.records@;
                let rec = Registration { prompt_hash: p, output_hash: o, creator: ctx.creator, timestamp: now };
                self.records.push((ctx.registration, rec));
                self.regs = Ghost(self.regs@.insert(ctx.registration, rec));
                assert forall|a: int, b: int| 0 <= a < b < self.records.len() implies #[trigger] self.records@[a].0
                    != #[trigger] self.records@[b].0 by {
                    if b < old_records.len() {
                        assert(old_records[a].0 != old_records[b].0);
                    } else {
                        assert(old_records[a] == self.records@[a]);
                    }
                }
                assert forall|k: int| 0 <= k < self.records.len() implies self.regs@.contains_key(
                    #[trigger] self.records@[k].0,
                ) && self.regs@[self.records@[k].0] == self.records@[k].1 by {
                    if k < old_records.len() {
                        assert(old_records[k] == self.records@[k]);
                    }
                }
                assert forall|a: Key| #[trigger] self.regs@.contains_key(a) implies exists|k: int|
                    0 <= k < self.records.len() && self.records@[k].0 == a by {
                    if a != ctx.registration {
                        let k = choose|k: int| 0 <= k < old_records.len() && old_records[k].0 == a;
                        assert(self.records@[k].0 == a);
                    } else {
                        assert(self.records@[old_records.len() as int].0 == a);
                    }
                }
                assert forall|a: Key| #[trigger] self.idxs@.contains_key(a) implies exists|k: int|
                    0 <= k < self.indexes.len() && self.indexes@[k].0 == a by {
                    if a != ctx.prompt_index {
                        let k = choose|k: int| 0 <= k < old_indexes.len() && old_indexes[k].0 == a;
                        assert(self.indexes@[k].0 == a);
                    } else {
                        match found {
                            Some(j) => assert(self.indexes@[j as int].0 == a),
                            None => assert(self.indexes@[old_indexes.len() as int].0 == a),
                        }
                    }
                }
                proof {
                    lemma_register_keeps_wf(old(self)@, *ctx, p, o, now);
                }
                Ok(event)
            },
        }
    }
}

/// Registers `output_hash` for `prompt_hash` under the accounts of `ctx` at
/// time `now`, as `RegistryView::register` describes, and returns the
/// notification of the write. On failure nothing changes.
pub fn register_content(
    registry: &mut Registry,
    ctx: &RegisterContent,
    prompt_hash: Key,
    output_hash: Key,
    now: i64,
) -> (r: Result<ContentRegistered, CustomError>)
    requires
        old(registry).wf(),
    ensures
        final(registry).wf(),
        final(registry)@.wf(),
        match old(registry)@.register(*ctx, prompt_hash, output_hash, now) {
            Ok(s) => r == Ok::<ContentRegistered, CustomError>(
                event_of(ctx.creator, prompt_hash, output_hash, now),
            ) && final(registry)@ == s,
            Err(e) => r == Err::<ContentRegistered, CustomError>(e) && final(registry)@ == old(
                registry,
            )@,
        },
{
    registry.upsert(ctx, prompt_hash, output_hash, now)
}

/// Registers one item of a batch for `creator` under the item's accounts: the
/// same rules as `register_content`.
pub fn batch_register_item(
    registry: &mut Registry,
    creator: &Key,
    ctx: &BatchRegisterItem,
    prompt_hash: Key,
    output_hash: Key,
    now: i64,
) -> (r: Result<ContentRegistered, CustomError>)
    requires
        old(registry).wf(),
    ensures
        final(registry).wf(),
        final(registry)@.wf(),
        match old(registry)@.register(item_context(*creator, *ctx), prompt_hash, output_hash, now) {
            Ok(s) => r == Ok::<ContentRegistered, CustomError>(
                event_of(*creator, prompt_hash, output_hash, now),
            ) && final(registry)@ == s,
            Err(e) => r == Err::<ContentRegistered, CustomError>(e) && final(registry)@ == old(
                registry,
            )@,
        },
{
    let full = RegisterContent {
        registration: ctx.registration,
        prompt_index: ctx.prompt_index,
        creator: *creator,
    };
    registry.upsert(&full, prompt_hash, output_hash, now)
}

/// The registration addresses recorded for `prompt_hash`, in insertion order;
/// `PromptNotFound` when the index at the context's address is absent or bound
/// to another prompt hash.
pub fn verify_prompt(registry: &Registry, ctx: &VerifyPrompt, prompt_hash: Key) -> (r: Result<
    Vec<Key>,
    CustomError,
>)
    requires
        registry.wf(),
    ensures
        match registry@.verify(ctx.prompt_index, prompt_hash) {
            Ok(s) => r is Ok && r->Ok_0@ == s,
            Err(e) => r == Err::<Vec<Key>, CustomError>(e),
        },
        r is Ok ==> r->Ok_0@.no_duplicates() && r->Ok_0@.len() > 0,
{
    proof {
        registry.lemma_view_wf();
    }
    match registry.find_index(&ctx.prompt_index) {
        Some(i) => registry.indexes[i].1.verify(&prompt_hash),
        None => Err(CustomError::PromptNotFound),
    }
}

/// Applies a batch of one to `MAX_BATCH` items for the context's creator at
/// time `now`, item `i` under account pair `i`, all or nothing, and returns one
/// notification per item. `EmptyBatch` when there is no item, `BatchTooLarge`
/// when there are more than `MAX_BATCH`, `MissingAccounts` when the account
/// pairs do not match the items one for one, else the first failure of an item.
pub fn batch_register_content(
    registry: &mut Registry,
    ctx: &BatchRegisterContent,
    registration_data: &Vec<RegistrationData>,
    now: i64,
) -> (r: Result<Vec<ContentRegistered>, CustomError>)
    requires
        old(registry).wf(),
    ensures
        final(registry).wf(),
        final(registry)@.wf(),
        r is Err ==> final(registry)@ == old(registry)@,
        registration_data.len() == 0 ==> r == Err::<Vec<ContentRegistered>, CustomError>(
            CustomError::EmptyBatch,
        ),
        registration_data.len() > MAX_BATCH ==> r == Err::<Vec<ContentRegistered>, CustomError>(
            CustomError::BatchTooLarge,
        ),
        0 < registration_data.len() <= MAX_BATCH && ctx.items.len() != registration_data.len() ==> r
            == Err::<Vec<ContentRegistered>, CustomError>(CustomError::MissingAccounts),
        0 < registration_data.len() <= MAX_BATCH && ctx.items.len() == registration_data.len() ==> match old(
            registry,
        )@.batch(ctx.creator, ctx.items@, registration_data@, now) {
            Ok(s) => r is Ok && r->Ok_0@ == batch_events(ctx.creator, registration_data@, now)
                && final(registry)@ == s,
            Err(e) => r == Err::<Vec<ContentRegistered>, CustomError>(e),
        },
{
    if registration_data.len() == 0 {
        return Err(CustomError::EmptyBatch);
    }
    if registration_data.len() > MAX_BATCH {
        return Err(CustomError::BatchTooLarge);
    }
    if ctx.items.len() != registration_data.len() {
        return Err(CustomError::MissingAccounts);
    }
    let ghost start = registry@;
    let mut work = registry.snapshot();
    let mut events: Vec<ContentRegistered> = Vec::new();
    let mut i: usize = 0;
    while i < registration_data.len()
        invariant
            0 <= i <= registration_data.len(),
            0 < registration_data.len() <= MAX_BATCH,
            ctx.items.len() == registration_data.len(),
            registry.wf(),
            registry@ == start,
            work.wf(),
            work@.program_id == start.program_id,
            start.batch(ctx.creator, ctx.items@, registration_data@.take(i as int), now) == Ok::<
                RegistryView,
                CustomError,
            >(work@),
            events@ == batch_events(ctx.creator, registration_data@.take(i as int), now),
        decreases registration_data.len() - i,
    {
        let item = ctx.items[i];
        let data = registration_data[i];
        let ghost before = work@;
        let ghost prefix = registration_data@.take(i as int + 1);
        assert(prefix.drop_last() =~= registration_data@.take(i as int));
        assert(prefix.last() == data);
        match batch_register_item(&mut work, &ctx.creator, &item, data.prompt_hash, data.output_hash, now) {
            Ok(ev) => {
                events.push(ev);
            },
            Err(e) => {
                proof {
                    lemma_batch_error_stays(
                        start,
                        ctx.creator,
                        ctx.items@,
                        registration_data@,
                        i as int + 1,
                        now,
                    );
                }
                return Err(e);
            },
        }
        i = i + 1;
        assert(events@ =~= batch_events(ctx.creator, registration_data@.take(i as int), now));
    }
    assert(registration_data@.take(registration_data@.len() as int) =~= registration_data@);
    *registry = work;
    Ok(events)
}

} // verus!
