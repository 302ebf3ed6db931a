//! Name resolution along the chain of parents, and exports.

use vstd::prelude::*;
use crate::class::{Class, Error, Script};
use crate::domain::{Domain, DomainPtr, Heap};
use crate::names::{copy_bytes, Multiname, QName, QNameView};
use crate::property_map::{lemma_first_match, PropertyMap};

verus! {

/// The local name an unresolved-variable error reports for `mn`: its local
/// name, or `*` when it has none.
pub open spec fn reported_name(mn: Multiname) -> Seq<u8> {
    match mn.local_name {
        Some(l) => l@,
        None => seq![42u8],
    }
}

impl Heap {
    /// `self` is `before` after the export of `name` from `script` into
    /// `d`: unchanged where `d` or an ancestor defined the name already;
    /// else the binding stands at the end of the definitions of `d`, and
    /// nothing else differs.
    pub open spec fn definition_exported(
        &self,
        before: &Heap,
        d: Domain,
        name: QNameView,
        script: Script,
    ) -> bool {
        if before.defines(d, name) {
            *self == *before
        } else {
            &&& self.same_but_domain(before, d)
            &&& self.data(d).same_but_defs(&before.data(d))
            &&& self.data(d).defs@ == before.data(d).defs@.push((name, script))
        }
    }

    /// `self` is `before` after the export of `class` under `name` into
    /// `d`: unchanged where `d` or an ancestor had a class of that name
    /// already; else the binding stands at the end of the classes of `d`,
    /// and nothing else differs.
    pub open spec fn class_exported(
        &self,
        before: &Heap,
        d: Domain,
        name: QNameView,
        class: Class,
    ) -> bool {
        if before.defines_class(d, name) {
            *self == *before
        } else {
            &&& self.same_but_domain(before, d)
            &&& self.data(d).same_but_classes(&before.data(d))
            &&& self.data(d).classes@ == before.data(d).classes@.push((name, class))
        }
    }
}

impl Domain {
    /// The parent of this domain.
    pub fn parent_domain(self, heap: &Heap) -> (p: Option<Domain>)
        requires
            heap.contains(self),
        ensures
            p == heap.data(self).parent,
    {
        heap.domains[self.index].parent
    }

    /// The storage identity of this domain.
    pub fn as_ptr(self) -> (p: DomainPtr)
        ensures
            p == DomainPtr::Slot(self.index),
    {
        DomainPtr::Slot(self.index)
    }

    /// Whether this is the domain `playerglobals`.
    pub fn is_playerglobals_domain(&self, playerglobals: Domain) -> (r: bool)
        ensures
            r == (*self == playerglobals),
    {
        self.index == playerglobals.index
    }

    /// The definitions exported into this domain itself.
    pub fn defs<'a>(&self, heap: &'a Heap) -> (m: &'a PropertyMap<Script>)
        requires
            heap.contains(*self),
        ensures
            *m == heap.data(*self).defs,
    {
        &heap.domains[self.index].defs
    }

    /// The classes exported into this domain itself.
    pub fn classes<'a>(&self, heap: &'a Heap) -> (m: &'a PropertyMap<Class>)
        requires
            heap.contains(*self),
        ensures
            *m == heap.data(*self).classes,
    {
        &heap.domains[self.index].classes
    }

    /// Whether `name` is defined in this domain or in one of its ancestors.
    pub fn has_definition(self, heap: &Heap, name: &QName) -> (r: bool)
        requires
            heap.wf(),
            heap.contains(self),
        ensures
            r == heap.defines(self, name@),
        decreases self.index,
    {
        assert(heap.domain_wf(self.index as int));
        let data = &heap.domains[self.index];
        if data.defs.contains_key(name) {
            return true;
        }
        if let Some(parent) = data.parent {
            return parent.has_definition(heap, name);
        }
        false
    }

    /// Whether `name` is a class of this domain or of one of its ancestors.
    pub fn has_class(self, heap: &Heap, name: &QName) -> (r: bool)
        requires
            heap.wf(),
            heap.contains(self),
        ensures
            r == heap.defines_class(self, name@),
        decreases self.index,
    {
        assert(heap.domain_wf(self.index as int));
        let data = &heap.domains[self.index];
        if data.classes.contains_key(name) {
            return true;
        }
        if let Some(parent) = data.parent {
            return parent.has_class(heap, name);
        }
        false
    }

    /// Resolves `multiname` to the qualified name it stands for and the
    /// script that exported it; `None` when no domain of the chain has it.
    pub fn get_defining_script(self, heap: &Heap, multiname: &Multiname) -> (r: Option<
        (QName, Script),
    >)
        requires
            heap.wf(),
            heap.contains(self),
        ensures
            match r {
                Some((q, s)) => heap.defining_script(self, *multiname) == Some((q@, s)),
                None => heap.defining_script(self, *multiname) is None,
            },
        decreases self.index,
    {
        assert(heap.domain_wf(self.index as int));
        let data = &heap.domains[self.index];
        proof {
            lemma_first_match(data.defs@, *multiname, 0);
        }
        if let Some(name) = &multiname.local_name {
            if let Some((found, script)) = data.defs.get_with_ns_for_multiname(multiname) {
                let qname = QName::new(
                    copy_bytes(found.namespace.as_slice()),
                    copy_bytes(name.as_slice()),
                );
                return Some((qname, *script));
            }
        }
        if let Some(parent) = data.parent {
            return parent.get_defining_script(heap, multiname);
        }
        None
    }

    /// The class that the name of `multiname` resolves to, its parameter
    /// left aside.
    fn get_class_inner(self, heap: &Heap, multiname: &Multiname) -> (r: Option<Class>)
        requires
            heap.wf(),
            heap.contains(self),
        ensures
            r == heap.base_class(self, *multiname),
        decreases self.index,
    {
        assert(heap.domain_wf(self.index as int));
        let data = &heap.domains[self.index];
        if let Some(class) = data.classes.get_for_multiname(multiname) {
            return Some(class.duplicate());
        }
        if let Some(parent) = data.parent {
            return parent.get_class_inner(heap, multiname);
        }
        None
    }

    /// Resolves `multiname` to a class. A name without a parameter gives the
    /// class itself; with the any-type parameter, the class applied to no
    /// argument; with a parameter name, the class applied to what that name
    /// resolves to, and `None` if it resolves to nothing.
    pub fn get_class(self, heap: &Heap, multiname: &Multiname) -> (r: Option<Class>)
        requires
            heap.wf(),
            heap.contains(self),
        ensures
            r == heap.resolved_class(self, *multiname),
        decreases multiname,
    {
        let class = self.get_class_inner(heap, multiname);
        if let Some(class) = class {
            if let Some(param) = &multiname.param {
                if let Some(param) = param {
                    if let Some(resolved_param) = self.get_class(heap, param) {
                        return Some(Class::with_type_param(class, Some(resolved_param)));
                    }
                    return None;
                } else {
                    return Some(Class::with_type_param(class, None));
                }
            }
            return Some(class);
        }
        class
    }

    /// As `get_defining_script`, with an error in place of `None`.
    pub fn find_defining_script(self, heap: &Heap, multiname: &Multiname) -> (r: Result<
        (QName, Script),
        Error,
    >)
        requires
            heap.wf(),
            heap.contains(self),
        ensures
            match r {
                Ok((q, s)) => heap.defining_script(self, *multiname) == Some((q@, s)),
                Err(e) => {
                    &&& heap.defining_script(self, *multiname) is None
                    &&& e matches Error::UndefinedVariable { name }
                    &&& name@ == reported_name(*multiname)
                },
            },
    {
        match self.get_defining_script(heap, multiname) {
            Some(val) => Ok(val),
            None => {
                let name = match &multiname.local_name {
                    Some(l) => copy_bytes(l.as_slice()),
                    None => {
                        let mut star: Vec<u8> = Vec::new();
                        star.push(42u8);
                        assert(star@ =~= seq![42u8]);
                        star
                    },
                };
                Err(Error::UndefinedVariable { name })
            },
        }
    }

    /// The names exported into this domain itself, in export order.
    pub fn get_defined_names(&self, heap: &Heap) -> (out: Vec<QName>)
        requires
            heap.contains(*self),
        ensures
            out@.len() == heap.data(*self).defs@.len(),
            forall|k: int| 0 <= k < out@.len() ==> (#[trigger] out@[k])@ == heap.data(*self).defs@[k].0,
    {
        heap.domains[self.index].defs.names()
    }

    /// Exports `name` from `script` into this domain, unless this domain or
    /// an ancestor defines the name already: then nothing changes.
    pub fn export_definition(self, heap: &mut Heap, name: QName, script: Script)
        requires
            old(heap).wf(),
            old(heap).contains(self),
        ensures
            final(heap).wf(),
            final(heap).definition_exported(old(heap), self, name@, script),
    {
        if self.has_definition(heap, &name) {
            return;
        }
        assert(old(heap).domain_wf(self.index as int));
        heap.domains[self.index].defs.insert(name, script);
        proof {
            assert forall|i: int| 0 <= i < heap.domains@.len() implies #[trigger] heap.domain_wf(
                i,
            ) by {
                assert(old(heap).domain_wf(i));
            }
        }
    }

    /// Exports `class` under `export_name` into this domain, unless this
    /// domain or an ancestor has a class of that name already: then nothing
    /// changes.
    pub fn export_class(&self, heap: &mut Heap, export_name: QName, class: Class)
        requires
            old(heap).wf(),
            old(heap).contains(*self),
        ensures
            final(heap).wf(),
            final(heap).class_exported(old(heap), *self, export_name@, class),
    {
        if self.has_class(heap, &export_name) {
            return;
        }
        assert(old(heap).domain_wf(self.index as int));
        heap.domains[self.index].classes.insert(export_name, class);
        proof {
            assert forall|i: int| 0 <= i < heap.domains@.len() implies #[trigger] heap.domain_wf(
                i,
            ) by {
                assert(old(heap).domain_wf(i));
            }
        }
    }
}

} // verus!
