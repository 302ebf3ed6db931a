//! Creating domains and enumerating the children of one.

use vstd::prelude::*;
use crate::domain::{
    live_children, ByteArrayObject, Domain, DomainData, DomainWeak, Heap, MIN_DOMAIN_MEMORY_LENGTH,
};
use crate::memory::zero_bytes;
use crate::property_map::PropertyMap;

verus! {

impl Heap {
    /// `self` is `before` with the new domain `d` in a slot of its own:
    /// `d` is live, has `parent` as its parent, no definitions, no classes,
    /// no children and no memory; a weak handle of `d` has been added to the
    /// end of the parent's registry; the other domains and the scripts are
    /// untouched.
    pub open spec fn domain_created(&self, before: &Heap, d: Domain, parent: Option<Domain>) -> bool {
        &&& d.index == before.domains@.len()
        &&& self.domains@.len() == before.domains@.len() + 1
        &&& self.scripts == before.scripts
        &&& self.contains(d)
        &&& self.data(d).defs@.len() == 0
        &&& self.data(d).classes@.len() == 0
        &&& self.data(d).parent == parent
        &&& self.data(d).children@.len() == 0
        &&& forall|i: int|
            0 <= i < before.domains@.len() && parent != Some(Domain { index: i as usize })
                ==> #[trigger] self.domains@[i] == before.domains@[i]
        &&& (parent matches Some(p) ==> {
            &&& self.data(p).same_but_children(&before.data(p))
            &&& self.data(p).children@ == before.data(p).children@.push(DomainWeak { index: d.index })
        })
    }
}

impl DomainWeak {
    /// The domain this handle names, unless it has been reclaimed.
    pub fn upgrade(self, heap: &Heap) -> (d: Option<Domain>)
        ensures
            d == if heap.contains(Domain { index: self.index }) {
                Some(Domain { index: self.index })
            } else {
                None
            },
    {
        if self.index < heap.domains.len() && heap.domains[self.index].live {
            Some(Domain { index: self.index })
        } else {
            None
        }
    }
}

impl Domain {
    /// A handle of this domain that does not keep it alive.
    pub fn downgrade(self) -> (w: DomainWeak)
        ensures
            w.index == self.index,
    {
        DomainWeak { index: self.index }
    }

    /// Creates a domain without memory: its memory is to be initialised
    /// later, once. Meant for the root domains, which exist before any
    /// buffer does.
    pub fn uninitialized_domain(heap: &mut Heap, parent: Option<Domain>) -> (d: Domain)
        requires
            old(heap).wf(),
            parent matches Some(p) ==> old(heap).contains(p),
        ensures
            final(heap).wf(),
            final(heap).domain_created(old(heap), d, parent),
            final(heap).byte_arrays == old(heap).byte_arrays,
            final(heap).data(d).domain_memory is None,
            final(heap).data(d).default_domain_memory is None,
    {
        let index = heap.domains.len();
        let domain = Domain { index };
        heap.domains.push(
            DomainData {
                defs: PropertyMap::new(),
                classes: PropertyMap::new(),
                parent,
                domain_memory: None,
                default_domain_memory: None,
                children: Vec::new(),
                live: true,
            },
        );
        if let Some(parent) = parent {
            heap.domains[parent.index].children.push(domain.downgrade());
        }
        proof {
            assert forall|i: int| 0 <= i < heap.domains@.len() implies #[trigger] heap.domain_wf(
                i,
            ) by {
                if i < index {
                    assert(old(heap).domain_wf(i));
                }
            }
        }
        domain
    }

    /// Creates a domain under `parent`, with its default memory allocated
    /// and in use.
    pub fn movie_domain(heap: &mut Heap, parent: Domain) -> (d: Domain)
        requires
            old(heap).wf(),
            old(heap).contains(parent),
        ensures
            final(heap).wf(),
            final(heap).domain_created(old(heap), d, Some(parent)),
            final(heap).byte_arrays@.len() == old(heap).byte_arrays@.len() + 1,
            final(heap).byte_arrays@.drop_last() == old(heap).byte_arrays@,
            final(heap).byte_arrays@.last()@ == zero_bytes(MIN_DOMAIN_MEMORY_LENGTH as nat),
            final(heap).data(d).domain_memory == Some(
                ByteArrayObject { index: old(heap).byte_arrays@.len() as usize },
            ),
            final(heap).uses_default_memory(d),
    {
        let index = heap.domains.len();
        let this = Domain { index };
        heap.domains.push(
            DomainData {
                defs: PropertyMap::new(),
                classes: PropertyMap::new(),
                parent: Some(parent),
                domain_memory: None,
                default_domain_memory: None,
                children: Vec::new(),
                live: true,
            },
        );
        proof {
            assert forall|i: int| 0 <= i < heap.domains@.len() implies #[trigger] heap.domain_wf(
                i,
            ) by {
                if i < index {
                    assert(old(heap).domain_wf(i));
                }
            }
        }
        let ghost mid = *heap;
        let _ = this.init_default_domain_memory(heap);
        heap.domains[parent.index].children.push(this.downgrade());
        proof {
            assert forall|i: int| 0 <= i < heap.domains@.len() implies #[trigger] heap.domain_wf(
                i,
            ) by {
                assert(mid.domain_wf(i));
                if i < index {
                    assert(old(heap).domain_wf(i));
                }
            }
        }
        this
    }

    /// The children of this domain that are still live, in the order of
    /// their creation. Entries of reclaimed children leave the registry.
    pub fn children(&self, heap: &mut Heap) -> (out: Vec<Domain>)
        requires
            old(heap).wf(),
            old(heap).contains(*self),
        ensures
            final(heap).wf(),
            out@ == live_children(
                old(heap).domains@,
                old(heap).data(*self).children@,
                old(heap).data(*self).children@.len() as int,
            ),
            final(heap).same_but_domain(old(heap), *self),
            final(heap).data(*self).same_but_children(&old(heap).data(*self)),
            final(heap).data(*self).children@.len() == out@.len(),
            forall|k: int|
                0 <= k < out@.len() ==> (#[trigger] final(heap).data(*self).children@[k]).index
                    == out@[k].index,
    {
        assert(heap.domain_wf(self.index as int));
        let mut output: Vec<Domain> = Vec::new();
        let mut kept: Vec<DomainWeak> = Vec::new();
        let n = heap.domains[self.index].children.len();
        let mut i: usize = 0;
        while i < n
            invariant
                *heap == *old(heap),
                heap.wf(),
                heap.contains(*self),
                n == heap.data(*self).children@.len(),
                i <= n,
                output@ == live_children(heap.domains@, heap.data(*self).children@, i as int),
                kept@.len() == output@.len(),
                forall|k: int|
                    0 <= k < kept@.len() ==> {
                        &&& (#[trigger] kept@[k]).index == output@[k].index
                        &&& kept@[k].index < heap.domains@.len()
                        &&& heap.domains@[kept@[k].index as int].parent == Some(*self)
                    },
            decreases n - i,
        {
            assert(heap.domain_wf(self.index as int));
            let child = heap.domains[self.index].children[i];
            if let Some(live) = child.upgrade(heap) {
                output.push(live);
                kept.push(child);
            }
            i += 1;
        }
        heap.domains[self.index].children = kept;
        proof {
            assert forall|i: int| 0 <= i < heap.domains@.len() implies #[trigger] heap.domain_wf(
                i,
            ) by {
                assert(old(heap).domain_wf(i));
            }
        }
        output
    }
}

} // verus!
