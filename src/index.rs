//! The bounded, duplicate-free index from a prompt hash to registration addresses.
use vstd::prelude::*;

use crate::state::{is_zero_key, keys_equal, new_zero_key, zero_key, CustomError, Key};

verus! {

/// The number of addresses an index holds unless configured otherwise.
pub const DEFAULT_CAPACITY: usize = 100;

/// What an index holds, as mathematical values.
pub struct IndexView {
    pub prompt_hash: Key,
    pub registrations: Seq<Key>,
    pub capacity: nat,
}

impl IndexView {
    /// An index with no prompt hash and no entries.
    pub open spec fn empty(capacity: nat) -> IndexView {
        IndexView { prompt_hash: zero_key(), registrations: Seq::empty(), capacity }
    }

    /// Within capacity and free of duplicates.
    pub open spec fn wf(self) -> bool {
        &&& self.registrations.len() <= self.capacity
        &&& self.registrations.no_duplicates()
    }

    /// The index bound to `p` when it has no prompt hash or no entries yet.
    pub open spec fn initialized(self, p: Key) -> IndexView {
        if self.prompt_hash == zero_key() || self.registrations.len() == 0 {
            IndexView { prompt_hash: p, ..self }
        } else {
            self
        }
    }

    /// The index after recording `a`: unchanged when present, `IndexFull` when
    /// new and the index is at capacity, else with `a` appended.
    pub open spec fn record(self, a: Key) -> Result<IndexView, CustomError> {
        if self.registrations.contains(a) {
            Ok(self)
        } else if self.registrations.len() >= self.capacity {
            Err(CustomError::IndexFull)
        } else {
            Ok(IndexView { registrations: self.registrations.push(a), ..self })
        }
    }

    /// Recording each of `addrs` in order, stopping at the first failure.
    pub open spec fn record_all(self, addrs: Seq<Key>) -> Result<IndexView, CustomError>
        decreases addrs.len(),
    {
        if addrs.len() == 0 {
            Ok(self)
        } else {
            match self.record_all(addrs.drop_last()) {
                Ok(ix) => ix.record(addrs.last()),
                Err(e) => Err(e),
            }
        }
    }

    /// The stored addresses when the index belongs to `p`, else `PromptNotFound`.
    pub open spec fn verify(self, p: Key) -> Result<Seq<Key>, CustomError> {
        if self.prompt_hash == p {
            Ok(self.registrations)
        } else {
            Err(CustomError::PromptNotFound)
        }
    }
}

/// The addresses registered for one prompt hash, in insertion order.
pub struct PromptIndex {
    pub prompt_hash: Key,
    pub registrations: Vec<Key>,
    pub capacity: usize,
}

impl View for PromptIndex {
    type V = IndexView;

    open spec fn view(&self) -> IndexView {
        IndexView {
            prompt_hash: self.prompt_hash,
            registrations: self.registrations@,
            capacity: self.capacity as nat,
        }
    }
}

/// A copy of the addresses.
pub fn copy_keys(v: &Vec<Key>) -> (r: Vec<Key>)
    ensures
        r@ == v@,
{
    let mut out: Vec<Key> = Vec::new();
    let mut i: usize = 0;
    while i < v.len()
        invariant
            0 <= i <= v.len(),
            out@ == v@.take(i as int),
        decreases v.len() - i,
    {
        out.push(v[i]);
        i = i + 1;
        assert(out@ =~= v@.take(i as int));
    }
    assert(v@.take(v@.len() as int) =~= v@);
    out
}

impl PromptIndex {
    /// An empty index holding at most `capacity` addresses.
    pub fn with_capacity(capacity: usize) -> (r: PromptIndex)
        ensures
            r@ == IndexView::empty(capacity as nat),
            r@.wf(),
    {
        PromptIndex { prompt_hash: new_zero_key(), registrations: Vec::new(), capacity }
    }

    /// An empty index of the default capacity.
    pub fn new() -> (r: PromptIndex)
        ensures
            r@ == IndexView::empty(DEFAULT_CAPACITY as nat),
            r@.wf(),
    {
        PromptIndex::with_capacity(DEFAULT_CAPACITY)
    }

    /// A copy of the index.
    pub fn duplicate(&self) -> (r: PromptIndex)
        ensures
            r@ == self@,
    {
        PromptIndex {
            prompt_hash: self.prompt_hash,
            registrations: copy_keys(&self.registrations),
            capacity: self.capacity,
        }
    }

    /// Whether the address is already recorded.
    pub fn contains(&self, a: &Key) -> (r: bool)
        ensures
            r == self@.registrations.contains(*a),
    {
        let mut i: usize = 0;
        while i < self.registrations.len()
            invariant
                0 <= i <= self.registrations.len(),
                forall|j: int| 0 <= j < i ==> self.registrations@[j] != *a,
            decreases self.registrations.len() - i,
        {
            if keys_equal(&self.registrations[i], a) {
                return true;
            }
            i = i + 1;
        }
        false
    }

    /// Binds the index to `prompt_hash` when it has no prompt hash or no entries.
    pub fn ensure_initialized(&mut self, prompt_hash: &Key)
        ensures
            final(self)@ == old(self)@.initialized(*prompt_hash),
    {
        if is_zero_key(&self.prompt_hash) || self.registrations.len() == 0 {
            self.prompt_hash = *prompt_hash;
        }
    }

    /// Records the address once; fails with `IndexFull`, changing nothing, when
    /// the address is new and the index is at capacity.
    pub fn record(&mut self, a: &Key) -> (r: Result<(), CustomError>)
        requires
            old(self)@.wf(),
        ensures
            final(self)@.wf(),
            match old(self)@.record(*a) {
                Ok(ix) => r is Ok && final(self)@ == ix,
                Err(e) => r == Err::<(), CustomError>(e) && final(self)@ == old(self)@,
            },
    {
        if self.contains(a) {
            return Ok(());
        }
        if self.registrations.len() >= self.capacity {
            return Err(CustomError::IndexFull);
        }
        self.registrations.push(*a);
        Ok(())
    }

    /// The stored addresses when the index belongs to `prompt_hash`.
    pub fn verify(&self, prompt_hash: &Key) -> (r: Result<Vec<Key>, CustomError>)
        ensures
            match self@.verify(*prompt_hash) {
                Ok(s) => r is Ok && r->Ok_0@ == s,
                Err(e) => r == Err::<Vec<Key>, CustomError>(e),
            },
    {
        if keys_equal(&self.prompt_hash, prompt_hash) {
            Ok(copy_keys(&self.registrations))
        } else {
            Err(CustomError::PromptNotFound)
        }
    }
}

/// Recording into a well-formed index keeps it well-formed.
pub proof fn lemma_record_keeps_wf(ix: IndexView, a: Key)
    requires
        ix.wf(),
    ensures
        ix.record(a) is Ok ==> ix.record(a)->Ok_0.wf(),
{
    if ix.record(a) is Ok && !ix.registrations.contains(a) {
        let r = ix.registrations.push(a);
        assert forall|i: int, j: int| 0 <= i < r.len() && 0 <= j < r.len() && i != j implies r[i] != r[j] by {
            if i == ix.registrations.len() {
                assert(r[j] == ix.registrations[j]);
            } else if j == ix.registrations.len() {
                assert(r[i] == ix.registrations[i]);
            }
        }
    }
}

} // verus!
