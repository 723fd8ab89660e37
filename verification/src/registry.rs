//! The buffers that the enclave lends to the host, each under a handle that
//! is redeemed once.

use vstd::prelude::*;
use vstd::slice::slice_to_vec;

verus! {

/// The handle of a buffer that the enclave holds for the host. The tag `0`
/// names no buffer: it is what a failed allocation returns.
#[derive(Clone, Copy, Debug, PartialEq, Eq, Structural)]
pub struct EnclaveBuffer {
    pub tag: u64,
}

impl EnclaveBuffer {
    /// The handle that names no buffer.
    pub fn null() -> (handle: EnclaveBuffer)
        ensures
            handle.tag == 0,
    {
        EnclaveBuffer { tag: 0 }
    }

    pub fn is_null(&self) -> (null: bool)
        ensures
            null == (self.tag == 0),
    {
        self.tag == 0
    }
}

impl Default for EnclaveBuffer {
    fn default() -> (handle: EnclaveBuffer)
        ensures
            handle.tag == 0,
    {
        EnclaveBuffer { tag: 0 }
    }
}

/// What presenting the handle `tag` yields from the buffers `live`.
pub open spec fn recovered_bytes(live: Map<u64, Seq<u8>>, tag: u64) -> Option<Seq<u8>> {
    if live.contains_key(tag) {
        Some(live[tag])
    } else {
        None
    }
}

struct Entry {
    tag: u64,
    bytes: Vec<u8>,
}

/// The outstanding buffers of one enclave.
pub struct BufferRegistry {
    entries: Vec<Entry>,
    next_tag: u64,
}

impl View for BufferRegistry {
    type V = Map<u64, Seq<u8>>;

    /// The outstanding buffers: the bytes of each, by its handle's tag.
    closed spec fn view(&self) -> Map<u64, Seq<u8>> {
        Map::new(
            |tag: u64| exists|i: int| self.holds_at(i, tag),
            |tag: u64| self.entries[choose|i: int| self.holds_at(i, tag)].bytes@,
        )
    }
}

impl BufferRegistry {
    spec fn holds_at(self, i: int, tag: u64) -> bool {
        0 <= i < self.entries.len() && self.entries[i].tag == tag
    }

    /// No handle is outstanding twice, none is the null handle, and every
    /// one was handed out before the next that will be.
    #[verifier::type_invariant]
    spec fn wf(self) -> bool {
        &&& self.next_tag >= 1
        &&& forall|i: int|
            0 <= i < self.entries.len() ==> 0 < (#[trigger] self.entries[i]).tag < self.next_tag
        &&& forall|i: int, j: int|
            0 <= i < j < self.entries.len() ==> (#[trigger] self.entries[i]).tag != (
            #[trigger] self.entries[j]).tag
    }

    /// Every handle that the registry can name has been handed out.
    pub closed spec fn spent(self) -> bool {
        self.next_tag == u64::MAX
    }

    proof fn lemma_lookup(self, i: int)
        requires
            self.wf(),
            0 <= i < self.entries.len(),
        ensures
            self@.contains_key(self.entries[i].tag),
            self@[self.entries[i].tag] == self.entries[i].bytes@,
    {
        let tag = self.entries[i].tag;
        assert(self.holds_at(i, tag));
        let k = choose|k: int| self.holds_at(k, tag);
        assert(self.holds_at(k, tag));
        assert(k == i) by {
            if k < i {
                assert(self.entries[k].tag != self.entries[i].tag);
            } else if i < k {
                assert(self.entries[i].tag != self.entries[k].tag);
            }
        }
    }

    proof fn lemma_null_is_not_live(self)
        requires
            self.wf(),
        ensures
            !self@.contains_key(0),
    {
        if self@.contains_key(0) {
            let i = choose|i: int| self.holds_at(i, 0);
            assert(self.holds_at(i, 0));
            assert(0 < self.entries[i].tag);
        }
    }

    /// A registry without buffers.
    pub fn new() -> (registry: BufferRegistry)
        ensures
            !registry.spent(),
            registry@ == Map::<u64, Seq<u8>>::empty(),
    {
        let registry = BufferRegistry { entries: Vec::new(), next_tag: 1 };
        assert(registry@ =~= Map::<u64, Seq<u8>>::empty()) by {
            assert forall|tag: u64| !registry@.contains_key(tag) by {
                assert(forall|i: int| !registry.holds_at(i, tag));
            }
        }
        registry
    }

    pub fn is_spent(&self) -> (spent: bool)
        ensures
            spent == self.spent(),
    {
        self.next_tag == u64::MAX
    }

    /// The number of outstanding buffers.
    pub fn len(&self) -> (count: usize)
        ensures
            count == self@.dom().len(),
            self@.dom().finite(),
    {
        proof {
            use_type_invariant(self);
            self.lemma_count(self.entries.len() as int);
        }
        self.entries.len()
    }

    proof fn lemma_count(self, n: int)
        requires
            self.wf(),
            n == self.entries.len(),
        ensures
            self@.dom().finite(),
            self@.dom().len() == n,
    {
        let tags = Set::new(|tag: u64| exists|i: int| 0 <= i < n && self.holds_at(i, tag));
        assert(tags =~= self@.dom());
        self.lemma_count_upto(n);
    }

    spec fn tags_upto(self, n: int) -> Set<u64> {
        Set::new(|tag: u64| exists|i: int| 0 <= i < n && self.holds_at(i, tag))
    }

    proof fn lemma_count_upto(self, n: int)
        requires
            self.wf(),
            0 <= n <= self.entries.len(),
        ensures
            self.tags_upto(n).finite(),
            self.tags_upto(n).len() == n,
        decreases n,
    {
        if n == 0 {
            assert(self.tags_upto(0) =~= Set::<u64>::empty());
        } else {
            self.lemma_count_upto(n - 1);
            let tag = self.entries[n - 1].tag;
            assert(self.holds_at(n - 1, tag));
            assert(!self.tags_upto(n - 1).contains(tag)) by {
                if self.tags_upto(n - 1).contains(tag) {
                    let i = choose|i: int| 0 <= i < n - 1 && self.holds_at(i, tag);
                    assert(self.entries[i].tag != self.entries[n - 1].tag);
                }
            }
            assert(self.tags_upto(n) =~= self.tags_upto(n - 1).insert(tag)) by {
                assert forall|t: u64| self.tags_upto(n).contains(t) implies self.tags_upto(
                    n - 1,
                ).insert(tag).contains(t) by {
                    let i = choose|i: int| 0 <= i < n && self.holds_at(i, t);
                    if i < n - 1 {
                        assert(0 <= i < n - 1 && self.holds_at(i, t));
                    }
                }
                assert forall|t: u64| self.tags_upto(n - 1).insert(tag).contains(
                    t,
                ) implies self.tags_upto(n).contains(t) by {
                    if t == tag {
                        assert(0 <= n - 1 < n && self.holds_at(n - 1, t));
                    } else {
                        let i = choose|i: int| 0 <= i < n - 1 && self.holds_at(i, t);
                        assert(0 <= i < n && self.holds_at(i, t));
                    }
                }
            }
        }
    }

    /// Whether the handle names an outstanding buffer.
    pub fn is_live(&self, handle: EnclaveBuffer) -> (live: bool)
        ensures
            live == self@.contains_key(handle.tag),
    {
        proof {
            use_type_invariant(self);
        }
        let mut i: usize = self.entries.len();
        while i > 0
            invariant
                i <= self.entries.len(),
                self.wf(),
                forall|j: int| i <= j < self.entries.len() ==> !self.holds_at(j, handle.tag),
            decreases i,
        {
            i -= 1;
            if self.entries[i].tag == handle.tag {
                proof {
                    self.lemma_lookup(i as int);
                }
                return true;
            }
        }
        assert(forall|j: int| !self.holds_at(j, handle.tag));
        false
    }

    /// Copies `bytes` into a buffer of the enclave and hands out its handle:
    /// one that is not null and names no other outstanding buffer. Where the
    /// registry has no handle left to give, it returns the null handle and
    /// keeps no copy.
    pub fn allocate(&mut self, bytes: &[u8]) -> (handle: EnclaveBuffer)
        ensures
            old(self).spent() ==> handle.tag == 0 && final(self)@ == old(self)@
                && final(self).spent(),
            !old(self).spent() ==> handle.tag != 0 && !old(self)@.contains_key(handle.tag)
                && final(self)@ == old(self)@.insert(handle.tag, bytes@),
    {
        proof {
            use_type_invariant(&*self);
        }
        if self.next_tag == u64::MAX {
            return EnclaveBuffer { tag: 0 };
        }
        let tag: u64 = self.next_tag;
        let ghost before = *self;
        let copy = slice_to_vec(bytes);
        // The entries leave the registry while they change, so that what
        // stays behind is well formed at every step.
        let mut entries: Vec<Entry> = Vec::new();
        core::mem::swap(&mut self.entries, &mut entries);
        self.next_tag = tag + 1;
        entries.push(Entry { tag, bytes: copy });
        proof {
            let last = before.entries.len() as int;
            assert(forall|i: int| 0 <= i < last ==> entries[i] == before.entries[i]);
            assert(entries[last].tag == tag);
            assert forall|i: int| 0 <= i < entries.len() implies 0 < (#[trigger] entries[i]).tag
                < tag + 1 by {
                if i < last {
                    assert(entries[i] == before.entries[i]);
                }
            }
            assert forall|i: int, j: int| 0 <= i < j < entries.len() implies (
            #[trigger] entries[i]).tag != (#[trigger] entries[j]).tag by {
                assert(entries[i] == before.entries[i]);
                if j < last {
                    assert(entries[j] == before.entries[j]);
                }
            }
        }
        core::mem::swap(&mut self.entries, &mut entries);
        proof {
            let after = *self;
            let last = before.entries.len() as int;
            assert(forall|i: int| 0 <= i < last ==> after.entries[i] == before.entries[i]);
            assert(after.entries[last].tag == tag);
            assert(after.wf());
            assert(!before@.contains_key(tag)) by {
                if before@.contains_key(tag) {
                    let i = choose|i: int| before.holds_at(i, tag);
                    assert(before.holds_at(i, tag));
                    assert(before.entries[i].tag < before.next_tag);
                }
            }
            let stored = before@.insert(tag, bytes@);
            assert forall|t: u64| #[trigger]
                after@.contains_key(t) == stored.contains_key(t) && (stored.contains_key(t)
                    ==> after@[t] == stored[t]) by {
                if after@.contains_key(t) {
                    let i = choose|i: int| after.holds_at(i, t);
                    assert(after.holds_at(i, t));
                    if i < last {
                        assert(before.holds_at(i, t));
                    }
                }
                if t == tag {
                    after.lemma_lookup(last);
                } else if before@.contains_key(t) {
                    let i = choose|i: int| before.holds_at(i, t);
                    assert(before.holds_at(i, t));
                    before.lemma_lookup(i);
                    after.lemma_lookup(i);
                }
            }
            assert(after@ =~= stored);
        }
        EnclaveBuffer { tag }
    }

    /// Redeems a handle: where it names an outstanding buffer, the buffer
    /// leaves the registry and its bytes are returned; where it names none
    /// (the null handle, a forged one, one redeemed before), nothing is
    /// returned and the registry stays as it is.
    pub fn recover(&mut self, handle: EnclaveBuffer) -> (bytes: Option<Vec<u8>>)
        ensures
            final(self).spent() == old(self).spent(),
            handle.tag == 0 ==> bytes is None,
            bytes is Some <==> old(self)@.contains_key(handle.tag),
            bytes is Some ==> Some(bytes.unwrap()@) == recovered_bytes(old(self)@, handle.tag),
            final(self)@ == old(self)@.remove(handle.tag),
    {
        let ghost before = *self;
        proof {
            use_type_invariant(&*self);
            before.lemma_null_is_not_live();
        }
        let mut i: usize = self.entries.len();
        while i > 0
            invariant
                i <= self.entries.len(),
                *self == before,
                before == *old(self),
                before.wf(),
                forall|j: int| i <= j < self.entries.len() ==> !self.holds_at(j, handle.tag),
            decreases i,
        {
            i -= 1;
            if self.entries[i].tag == handle.tag {
                let mut entries: Vec<Entry> = Vec::new();
                core::mem::swap(&mut self.entries, &mut entries);
                let entry = entries.swap_remove(i);
                proof {
                    let at = i as int;
                    let last = before.entries.len() - 1;
                    assert(forall|j: int|
                        0 <= j < last && j != at ==> entries[j] == before.entries[j]);
                    assert(at < last ==> entries[at] == before.entries[last]);
                    assert forall|j: int| 0 <= j < last implies 0 < (#[trigger] entries[j]).tag
                        < before.next_tag by {
                        let k = if j == at {
                            last
                        } else {
                            j
                        };
                        assert(entries[j] == before.entries[k]);
                    }
                    assert forall|j: int, l: int| 0 <= j < l < last implies (
                    #[trigger] entries[j]).tag != (#[trigger] entries[l]).tag by {
                        let kj = if j == at {
                            last
                        } else {
                            j
                        };
                        let kl = if l == at {
                            last
                        } else {
                            l
                        };
                        assert(entries[j] == before.entries[kj]);
                        assert(entries[l] == before.entries[kl]);
                        if kj < kl {
                            assert(before.entries[kj].tag != before.entries[kl].tag);
                        } else {
                            assert(before.entries[kl].tag != before.entries[kj].tag);
                        }
                    }
                }
                core::mem::swap(&mut self.entries, &mut entries);
                proof {
                    let after = *self;
                    let tag = handle.tag;
                    let at = i as int;
                    let last = before.entries.len() - 1;
                    before.lemma_lookup(at);
                    assert(forall|j: int|
                        0 <= j < last && j != at ==> after.entries[j] == before.entries[j]);
                    assert(at < last ==> after.entries[at] == before.entries[last]);
                    assert(after.next_tag == before.next_tag);
                    assert(after.wf());
                    let rest = before@.remove(tag);
                    assert forall|t: u64| #[trigger]
                        after@.contains_key(t) == rest.contains_key(t) && (rest.contains_key(t)
                            ==> after@[t] == rest[t]) by {
                        if after@.contains_key(t) {
                            let j = choose|j: int| after.holds_at(j, t);
                            assert(after.holds_at(j, t));
                            let k = if j == at {
                                last
                            } else {
                                j
                            };
                            assert(before.entries[k] == after.entries[j]);
                            assert(before.holds_at(k, t));
                            if k < at {
                                assert(before.entries[k].tag != before.entries[at].tag);
                            } else {
                                assert(before.entries[at].tag != before.entries[k].tag);
                            }
                        }
                        if rest.contains_key(t) {
                            let k = choose|k: int| before.holds_at(k, t);
                            assert(before.holds_at(k, t));
                            let j = if k == last {
                                at
                            } else {
                                k
                            };
                            assert(after.holds_at(j, t));
                            before.lemma_lookup(k);
                            after.lemma_lookup(j);
                        }
                    }
                    assert(after@ =~= rest);
                }
                return Some(entry.bytes);
            }
        }
        proof {
            assert(forall|j: int| !self.holds_at(j, handle.tag));
            assert(before@.remove(handle.tag) =~= before@);
        }
        None
    }
}

/// A buffer is recovered as it was allocated, and once: presenting a fresh
/// handle yields the bytes that were stored under it, leaves the registry as
/// it was before the allocation, and presenting it again yields nothing.
pub proof fn lemma_round_trip(live: Map<u64, Seq<u8>>, tag: u64, bytes: Seq<u8>)
    requires
        !live.contains_key(tag),
    ensures
        recovered_bytes(live.insert(tag, bytes), tag) == Some(bytes),
        live.insert(tag, bytes).remove(tag) == live,
        recovered_bytes(live.insert(tag, bytes).remove(tag), tag) is None,
{
    assert(live.insert(tag, bytes).remove(tag) =~= live);
}

/// Buffers do not touch each other: allocating or recovering under one
/// handle changes nothing of what another handle yields.
pub proof fn lemma_handles_are_independent(
    live: Map<u64, Seq<u8>>,
    tag: u64,
    other: u64,
    bytes: Seq<u8>,
)
    requires
        tag != other,
    ensures
        recovered_bytes(live.insert(other, bytes), tag) == recovered_bytes(live, tag),
        recovered_bytes(live.remove(other), tag) == recovered_bytes(live, tag),
{
}

} // verus!
