//! The linear memory of a domain: an active buffer and a default one.

use vstd::prelude::*;
use crate::class::Error;
use crate::domain::{ByteArrayObject, Domain, Heap, MIN_DOMAIN_MEMORY_LENGTH};

verus! {

/// `n` zero bytes.
pub open spec fn zero_bytes(n: nat) -> Seq<u8> {
    Seq::new(n, |i: int| 0u8)
}

/// A fresh vector of `n` zero bytes.
pub fn zeroed(n: usize) -> (v: Vec<u8>)
    ensures
        v@ == zero_bytes(n as nat),
{
    let mut v: Vec<u8> = Vec::new();
    let mut i: usize = 0;
    while i < n
        invariant
            i <= n,
            v@.len() == i,
            forall|k: int| 0 <= k < i ==> v@[k] == 0u8,
        decreases n - i,
    {
        v.push(0u8);
        i += 1;
    }
    assert(v@ =~= zero_bytes(n as nat));
    v
}

impl Heap {
    /// `self` is `before` with one more buffer, of the least length domain
    /// memory may have and all zero, which has become both the active and
    /// the default memory of `d`; nothing else differs.
    pub open spec fn default_memory_initialized(&self, before: &Heap, d: Domain) -> bool {
        let fresh = ByteArrayObject { index: before.byte_arrays@.len() as usize };
        &&& self.byte_arrays@.len() == before.byte_arrays@.len() + 1
        &&& self.byte_arrays@.drop_last() == before.byte_arrays@
        &&& self.byte_arrays@.last()@ == zero_bytes(MIN_DOMAIN_MEMORY_LENGTH as nat)
        &&& self.scripts == before.scripts
        &&& self.domains@.len() == before.domains@.len()
        &&& forall|i: int|
            0 <= i < self.domains@.len() && i != d.index ==> #[trigger] self.domains@[i]
                == before.domains@[i]
        &&& self.data(d).same_but_memory(&before.data(d))
        &&& self.data(d).domain_memory == Some(fresh)
        &&& self.data(d).default_domain_memory == Some(fresh)
    }
}

impl Heap {
    /// `self` is `before` after the assignment of `memory` to `d`:
    /// unchanged where `memory` is a buffer shorter than the least length;
    /// else the active memory of `d` is that buffer, or the default buffer
    /// of `d` where `memory` is `None`, and nothing else differs.
    pub open spec fn memory_assigned(
        &self,
        before: &Heap,
        d: Domain,
        memory: Option<ByteArrayObject>,
    ) -> bool {
        if memory is Some && before.byte_arrays@[memory.unwrap().index as int]@.len()
            < MIN_DOMAIN_MEMORY_LENGTH {
            *self == *before
        } else {
            &&& self.same_but_domain(before, d)
            &&& self.data(d).same_but_memory(&before.data(d))
            &&& self.data(d).default_domain_memory == before.data(d).default_domain_memory
            &&& self.data(d).domain_memory == match memory {
                Some(b) => Some(b),
                None => before.data(d).default_domain_memory,
            }
        }
    }
}

impl Domain {
    /// Whether the active memory of this domain is its default buffer: the
    /// same stored buffer, not one with the same bytes.
    pub fn is_default_domain_memory(&self, heap: &Heap) -> (r: bool)
        requires
            heap.contains(*self),
            heap.data(*self).domain_memory is Some,
            heap.data(*self).default_domain_memory is Some,
        ensures
            r == heap.uses_default_memory(*self),
    {
        let data = &heap.domains[self.index];
        let active = data.domain_memory.unwrap();
        let default = data.default_domain_memory.unwrap();
        active.index == default.index
    }

    /// The active memory of this domain.
    pub fn domain_memory(&self, heap: &Heap) -> (b: ByteArrayObject)
        requires
            heap.contains(*self),
            heap.data(*self).domain_memory is Some,
        ensures
            heap.data(*self).domain_memory == Some(b),
    {
        heap.domains[self.index].domain_memory.unwrap()
    }

    /// Makes `domain_memory` the active memory of this domain, or, given
    /// `None`, the domain's own default buffer. A buffer shorter than the
    /// least length is refused and nothing changes.
    pub fn set_domain_memory(&self, heap: &mut Heap, domain_memory: Option<ByteArrayObject>) -> (r:
        Result<(), Error>)
        requires
            old(heap).wf(),
            old(heap).contains(*self),
            domain_memory matches Some(b) ==> b.index < old(heap).byte_arrays@.len(),
            domain_memory is None ==> old(heap).data(*self).default_domain_memory is Some,
        ensures
            final(heap).wf(),
            r is Err <==> (domain_memory matches Some(b) && old(heap).byte_arrays@[b.index as int]@.len()
                < MIN_DOMAIN_MEMORY_LENGTH),
            r matches Err(e) ==> e == Error::EndOfFile,
            final(heap).memory_assigned(old(heap), *self, domain_memory),
            domain_memory is None ==> final(heap).uses_default_memory(*self),
    {
        assert(heap.domain_wf(self.index as int));
        let memory = match domain_memory {
            Some(b) => {
                if heap.byte_arrays[b.index].len() < MIN_DOMAIN_MEMORY_LENGTH {
                    return Err(Error::EndOfFile);
                }
                b
            },
            None => heap.domains[self.index].default_domain_memory.unwrap(),
        };
        heap.domains[self.index].domain_memory = Some(memory);
        proof {
            assert forall|i: int| 0 <= i < heap.domains@.len() implies #[trigger] heap.domain_wf(
                i,
            ) by {
                assert(old(heap).domain_wf(i));
            }
        }
        Ok(())
    }

    /// Allocates the default memory of this domain, zero-filled and of the
    /// least length, and makes it the active memory too. To be called once,
    /// on a domain whose memory has not been set.
    pub fn init_default_domain_memory(self, heap: &mut Heap) -> (r: Result<(), Error>)
        requires
            old(heap).wf(),
            old(heap).contains(self),
            old(heap).data(self).domain_memory is None,
            old(heap).data(self).default_domain_memory is None,
        ensures
            r is Ok,
            final(heap).wf(),
            final(heap).default_memory_initialized(old(heap), self),
    {
        let initial_data = zeroed(MIN_DOMAIN_MEMORY_LENGTH);
        let index = heap.byte_arrays.len();
        heap.byte_arrays.push(initial_data);
        let domain_memory = ByteArrayObject { index };
        heap.domains[self.index].domain_memory = Some(domain_memory);
        heap.domains[self.index].default_domain_memory = Some(domain_memory);
        proof {
            assert(heap.byte_arrays@.drop_last() =~= old(heap).byte_arrays@);
            assert forall|i: int| 0 <= i < heap.domains@.len() implies #[trigger] heap.domain_wf(
                i,
            ) by {
                assert(old(heap).domain_wf(i));
            }
        }
        Ok(())
    }
}

} // verus!
