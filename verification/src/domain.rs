//! Domains and the heap that stores them.

use vstd::prelude::*;
use crate::class::{Class, Script, Value};
use crate::names::{Multiname, QNameView};
use crate::property_map::{lookup, resolve, PropertyMap};

verus! {

/// The least length a buffer must have to serve as domain memory.
pub const MIN_DOMAIN_MEMORY_LENGTH: usize = 1024;

/// Handle of a domain. Two handles are equal exactly when they name the same
/// stored domain.
#[derive(Clone, Copy, Debug, PartialEq, Eq, Structural)]
pub struct Domain {
    pub index: usize,
}

/// Non-owning handle of a domain: it does not keep the domain alive.
#[derive(Clone, Copy, Debug, PartialEq, Eq, Structural)]
pub struct DomainWeak {
    pub index: usize,
}

/// Storage identity of a domain.
#[derive(Clone, Copy, Debug, PartialEq, Eq, Structural)]
pub enum DomainPtr {
    Slot(usize),
}

/// Handle of a byte buffer. Two handles are equal exactly when they name the
/// same stored buffer.
#[derive(Clone, Copy, Debug, PartialEq, Eq, Structural)]
pub struct ByteArrayObject {
    pub index: usize,
}

/// The state behind a domain handle.
pub struct DomainData {
    /// Every exported definition and the script that exported it.
    pub defs: PropertyMap<Script>,
    /// Every class defined in this domain.
    pub classes: PropertyMap<Class>,
    /// The parent domain; only a root has none.
    pub parent: Option<Domain>,
    /// The buffer in use as domain memory.
    pub domain_memory: Option<ByteArrayObject>,
    /// The buffer the domain falls back to when its memory is unset.
    pub default_domain_memory: Option<ByteArrayObject>,
    /// The domains created with this one as parent, held weakly.
    pub children: Vec<DomainWeak>,
    /// Whether the domain has not been reclaimed.
    pub live: bool,
}

/// What the heap knows of a script.
pub struct ScriptData {
    /// The script's global bindings, or `None` when they cannot be had.
    pub globals: Option<PropertyMap<Value>>,
}

/// Storage for domains, byte buffers and scripts. Slots are never reused, so
/// an index names one object for good.
pub struct Heap {
    pub domains: Vec<DomainData>,
    pub byte_arrays: Vec<Vec<u8>>,
    pub scripts: Vec<ScriptData>,
}

impl DomainData {
    /// Everything but the definitions is as in `other`.
    pub open spec fn same_but_defs(&self, other: &DomainData) -> bool {
        &&& self.classes == other.classes
        &&& self.parent == other.parent
        &&& self.domain_memory == other.domain_memory
        &&& self.default_domain_memory == other.default_domain_memory
        &&& self.children == other.children
        &&& self.live == other.live
    }

    /// Everything but the classes is as in `other`.
    pub open spec fn same_but_classes(&self, other: &DomainData) -> bool {
        &&& self.defs == other.defs
        &&& self.parent == other.parent
        &&& self.domain_memory == other.domain_memory
        &&& self.default_domain_memory == other.default_domain_memory
        &&& self.children == other.children
        &&& self.live == other.live
    }

    /// Everything but the two memory slots is as in `other`.
    pub open spec fn same_but_memory(&self, other: &DomainData) -> bool {
        &&& self.defs == other.defs
        &&& self.classes == other.classes
        &&& self.parent == other.parent
        &&& self.children == other.children
        &&& self.live == other.live
    }

    /// Everything but the liveness is as in `other`.
    pub open spec fn same_but_live(&self, other: &DomainData) -> bool {
        &&& self.defs == other.defs
        &&& self.classes == other.classes
        &&& self.parent == other.parent
        &&& self.domain_memory == other.domain_memory
        &&& self.default_domain_memory == other.default_domain_memory
        &&& self.children == other.children
    }

    /// Everything but the child registry is as in `other`.
    pub open spec fn same_but_children(&self, other: &DomainData) -> bool {
        &&& self.defs == other.defs
        &&& self.classes == other.classes
        &&& self.parent == other.parent
        &&& self.domain_memory == other.domain_memory
        &&& self.default_domain_memory == other.default_domain_memory
        &&& self.live == other.live
    }
}

/// The domains among the first `n` of `children` that are still live, in
/// registry order.
pub open spec fn live_children(domains: Seq<DomainData>, children: Seq<DomainWeak>, n: int) -> Seq<
    Domain,
>
    decreases n,
{
    if n <= 0 || n > children.len() {
        Seq::empty()
    } else {
        let c = children[n - 1];
        let rest = live_children(domains, children, n - 1);
        if c.index < domains.len() && domains[c.index as int].live {
            rest.push(Domain { index: c.index })
        } else {
            rest
        }
    }
}

impl Heap {
    /// Whether `d` names a domain of this heap that has not been reclaimed.
    pub open spec fn contains(&self, d: Domain) -> bool {
        d.index < self.domains@.len() && self.domains@[d.index as int].live
    }

    /// The state of `d`.
    pub open spec fn data(&self, d: Domain) -> DomainData {
        self.domains@[d.index as int]
    }

    /// The invariant of slot `i`.
    pub open spec fn domain_wf(&self, i: int) -> bool {
        let dd = self.domains@[i];
        &&& dd.defs.wf()
        &&& dd.classes.wf()
        &&& (dd.parent matches Some(p) ==> p.index < i && (dd.live ==> self.domains@[p.index as int].live))
        &&& (dd.domain_memory matches Some(b) ==> b.index < self.byte_arrays@.len())
        &&& (dd.default_domain_memory matches Some(b) ==> b.index < self.byte_arrays@.len())
        &&& forall|k: int|
            0 <= k < dd.children@.len() ==> {
                &&& (#[trigger] dd.children@[k]).index < self.domains@.len()
                &&& self.domains@[dd.children@[k].index as int].parent == Some(Domain { index: i as usize })
            }
    }

    /// The invariant of the heap: names are bound once per map, parents come
    /// before their children and outlive them, memory handles name stored
    /// buffers, and every registry entry names a child.
    pub open spec fn wf(&self) -> bool {
        &&& forall|i: int| 0 <= i < self.domains@.len() ==> #[trigger] self.domain_wf(i)
        &&& forall|i: int|
            0 <= i < self.scripts@.len() ==> (#[trigger] self.scripts@[i].globals matches Some(g)
                ==> g.wf())
    }

    /// The script that exported `name` into the nearest domain, from `d`
    /// towards the root, that binds it.
    pub open spec fn script_of(&self, d: Domain, name: QNameView) -> Option<Script>
        decreases d.index,
    {
        if d.index >= self.domains@.len() {
            None
        } else if lookup(self.data(d).defs@, name) is Some {
            lookup(self.data(d).defs@, name)
        } else {
            match self.data(d).parent {
                Some(p) => if p.index < d.index {
                    self.script_of(p, name)
                } else {
                    None
                },
                None => None,
            }
        }
    }

    /// Whether `d` or one of its ancestors binds `name` as a definition.
    pub open spec fn defines(&self, d: Domain, name: QNameView) -> bool {
        self.script_of(d, name) is Some
    }

    /// Whether `d` or one of its ancestors binds `name` as a class.
    pub open spec fn defines_class(&self, d: Domain, name: QNameView) -> bool
        decreases d.index,
    {
        if d.index >= self.domains@.len() {
            false
        } else if lookup(self.data(d).classes@, name) is Some {
            true
        } else {
            match self.data(d).parent {
                Some(p) => p.index < d.index && self.defines_class(p, name),
                None => false,
            }
        }
    }

    /// The definition that `mn` resolves to from `d`: the earliest accepted
    /// binding of the nearest domain, from `d` towards the root, that has one.
    pub open spec fn defining_script(&self, d: Domain, mn: Multiname) -> Option<(QNameView, Script)>
        decreases d.index,
    {
        if d.index >= self.domains@.len() {
            None
        } else if resolve(self.data(d).defs@, mn) is Some {
            resolve(self.data(d).defs@, mn)
        } else {
            match self.data(d).parent {
                Some(p) => if p.index < d.index {
                    self.defining_script(p, mn)
                } else {
                    None
                },
                None => None,
            }
        }
    }

    /// The class that the name of `mn`, without its parameter, resolves to
    /// from `d`.
    pub open spec fn base_class(&self, d: Domain, mn: Multiname) -> Option<Class>
        decreases d.index,
    {
        if d.index >= self.domains@.len() {
            None
        } else if resolve(self.data(d).classes@, mn) is Some {
            Some(resolve(self.data(d).classes@, mn).unwrap().1)
        } else {
            match self.data(d).parent {
                Some(p) => if p.index < d.index {
                    self.base_class(p, mn)
                } else {
                    None
                },
                None => None,
            }
        }
    }

    /// The class that `mn` resolves to from `d`, type parameter included.
    pub open spec fn resolved_class(&self, d: Domain, mn: Multiname) -> Option<Class>
        decreases mn,
    {
        match self.base_class(d, mn) {
            None => None,
            Some(class) => match mn.param {
                None => Some(class),
                Some(None) => Some(Class::spec_with_type_param(class, None)),
                Some(Some(p)) => match self.resolved_class(d, *p) {
                    Some(rp) => Some(Class::spec_with_type_param(class, Some(rp))),
                    None => None,
                },
            },
        }
    }

    /// Whether the active memory of `d` is its default buffer.
    pub open spec fn uses_default_memory(&self, d: Domain) -> bool {
        self.data(d).domain_memory is Some && self.data(d).domain_memory == self.data(
            d,
        ).default_domain_memory
    }

    /// All slots but that of `d` are as in `other`, and so are the buffers
    /// and the scripts.
    pub open spec fn same_but_domain(&self, other: &Heap, d: Domain) -> bool {
        &&& self.domains@.len() == other.domains@.len()
        &&& forall|i: int|
            0 <= i < self.domains@.len() && i != d.index ==> #[trigger] self.domains@[i]
                == other.domains@[i]
        &&& self.byte_arrays == other.byte_arrays
        &&& self.scripts == other.scripts
    }

    /// An empty heap.
    pub fn new() -> (heap: Heap)
        ensures
            heap.wf(),
            heap.domains@.len() == 0,
            heap.byte_arrays@.len() == 0,
            heap.scripts@.len() == 0,
    {
        Heap { domains: Vec::new(), byte_arrays: Vec::new(), scripts: Vec::new() }
    }

    /// Stores `data` as a new buffer and returns its handle.
    pub fn alloc_byte_array(&mut self, data: Vec<u8>) -> (b: ByteArrayObject)
        requires
            old(self).wf(),
        ensures
            final(self).wf(),
            b.index == old(self).byte_arrays@.len(),
            final(self).byte_arrays@ == old(self).byte_arrays@.push(data),
            final(self).domains == old(self).domains,
            final(self).scripts == old(self).scripts,
    {
        let index = self.byte_arrays.len();
        self.byte_arrays.push(data);
        proof {
            assert forall|i: int| 0 <= i < self.domains@.len() implies #[trigger] self.domain_wf(
                i,
            ) by {
                assert(old(self).domain_wf(i));
            }
        }
        ByteArrayObject { index }
    }

    /// The number of bytes in the buffer `b`.
    pub fn byte_array_len(&self, b: ByteArrayObject) -> (n: usize)
        requires
            b.index < self.byte_arrays@.len(),
        ensures
            n == self.byte_arrays@[b.index as int]@.len(),
    {
        self.byte_arrays[b.index].len()
    }

    /// Registers a script with its global bindings; `None` stands for a
    /// script whose globals cannot be had.
    pub fn add_script(&mut self, globals: Option<PropertyMap<Value>>) -> (s: Script)
        requires
            old(self).wf(),
            globals matches Some(g) ==> g.wf(),
        ensures
            final(self).wf(),
            s.index == old(self).scripts@.len(),
            final(self).scripts@ == old(self).scripts@.push(ScriptData { globals }),
            final(self).domains == old(self).domains,
            final(self).byte_arrays == old(self).byte_arrays,
    {
        let index = self.scripts.len();
        self.scripts.push(ScriptData { globals });
        proof {
            assert forall|i: int| 0 <= i < self.domains@.len() implies #[trigger] self.domain_wf(
                i,
            ) by {
                assert(old(self).domain_wf(i));
            }
        }
        Script { index }
    }

    /// Whether no live domain has `d` as its parent.
    pub open spec fn childless(&self, d: Domain) -> bool {
        forall|i: int|
            0 <= i < self.domains@.len() && (#[trigger] self.domains@[i]).live
                ==> self.domains@[i].parent != Some(d)
    }

    /// Reclaims `d` if no live domain has it as parent, as a collector does
    /// once nothing holds the domain any more. Says whether it did.
    pub fn release(&mut self, d: Domain) -> (released: bool)
        requires
            old(self).wf(),
            old(self).contains(d),
        ensures
            final(self).wf(),
            released == old(self).childless(d),
            !released ==> *final(self) == *old(self),
            released ==> {
                &&& final(self).same_but_domain(old(self), d)
                &&& !final(self).data(d).live
                &&& final(self).data(d).same_but_live(&old(self).data(d))
            },
    {
        let mut i: usize = 0;
        while i < self.domains.len()
            invariant
                *self == *old(self),
                self.wf(),
                i <= self.domains@.len(),
                forall|k: int|
                    0 <= k < i && (#[trigger] self.domains@[k]).live ==> self.domains@[k].parent
                        != Some(d),
            decreases self.domains@.len() - i,
        {
            if self.domains[i].live {
                match self.domains[i].parent {
                    Some(p) => {
                        if p.index == d.index {
                            return false;
                        }
                    },
                    None => {},
                }
            }
            i += 1;
        }
        self.domains[d.index].live = false;
        proof {
            assert forall|i: int| 0 <= i < self.domains@.len() implies #[trigger] self.domain_wf(
                i,
            ) by {
                assert(old(self).domain_wf(i));
                assert(old(self).domains@[i].live ==> old(self).domains@[i].parent != Some(d));
            }
        }
        true
    }
}

} // verus!
