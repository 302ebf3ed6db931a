//! What holds of resolution, exports and the child registry on every heap.

use vstd::prelude::*;
use crate::class::{Class, ErrorView, Script, Value};
use crate::domain::{
    live_children, ByteArrayObject, Domain, DomainData, DomainWeak, Heap, MIN_DOMAIN_MEMORY_LENGTH,
};
use crate::names::{Multiname, QNameView};
use crate::property_map::{lemma_position, lookup, position, resolve};
use crate::textual::{
    last_double_colon, qualified_vector_prefix, short_vector_prefix, spec_from_qualified_name,
    vector_class_name, vector_param_range,
};

verus! {

/// A name that a domain binds itself resolves to that binding, whatever its
/// ancestors bind.
pub proof fn law_shadowing(heap: Heap, d: Domain, mn: Multiname)
    requires
        heap.wf(),
        heap.contains(d),
        resolve(heap.data(d).defs@, mn) is Some,
    ensures
        heap.defining_script(d, mn) == resolve(heap.data(d).defs@, mn),
{
}

/// A qualified name that a domain binds itself is defined there by the
/// script of that binding, whatever its ancestors bind.
pub proof fn law_shadowing_exact(heap: Heap, d: Domain, name: QNameView)
    requires
        heap.wf(),
        heap.contains(d),
        lookup(heap.data(d).defs@, name) is Some,
    ensures
        heap.defines(d, name),
        heap.script_of(d, name) == lookup(heap.data(d).defs@, name),
{
}

/// A name that a domain does not bind itself resolves as it does from the
/// parent; where the parent binds it, to the parent's binding.
pub proof fn law_ancestor_fallback(heap: Heap, d: Domain, p: Domain, mn: Multiname)
    requires
        heap.wf(),
        heap.contains(d),
        heap.data(d).parent == Some(p),
        resolve(heap.data(d).defs@, mn) is None,
    ensures
        heap.defining_script(d, mn) == heap.defining_script(p, mn),
        resolve(heap.data(p).defs@, mn) is Some ==> heap.defining_script(d, mn) == resolve(
            heap.data(p).defs@,
            mn,
        ),
{
    assert(heap.domain_wf(d.index as int));
}

/// A qualified name that a domain does not bind itself is defined for it
/// exactly when it is for the parent, and by the same script.
pub proof fn law_ancestor_fallback_exact(heap: Heap, d: Domain, p: Domain, name: QNameView)
    requires
        heap.wf(),
        heap.contains(d),
        heap.data(d).parent == Some(p),
        lookup(heap.data(d).defs@, name) is None,
    ensures
        heap.defines(d, name) == heap.defines(p, name),
        heap.script_of(d, name) == heap.script_of(p, name),
        lookup(heap.data(p).defs@, name) is Some ==> heap.script_of(d, name) == lookup(
            heap.data(p).defs@,
            name,
        ),
{
    assert(heap.domain_wf(d.index as int));
}

/// A class name that a domain does not bind itself is a class for it
/// exactly when it is for the parent.
pub proof fn law_class_fallback(heap: Heap, d: Domain, p: Domain, name: QNameView)
    requires
        heap.wf(),
        heap.contains(d),
        heap.data(d).parent == Some(p),
        lookup(heap.data(d).classes@, name) is None,
    ensures
        heap.defines_class(d, name) == heap.defines_class(p, name),
{
    assert(heap.domain_wf(d.index as int));
}

/// After an export the name is defined, and where it was not defined
/// before, by the exporting script.
pub proof fn law_export_defines(h0: Heap, h1: Heap, d: Domain, name: QNameView, script: Script)
    requires
        h0.wf(),
        h0.contains(d),
        h1.definition_exported(&h0, d, name, script),
    ensures
        h1.defines(d, name),
        h1.script_of(d, name) == if h0.defines(d, name) {
            h0.script_of(d, name)
        } else {
            Some(script)
        },
{
    if !h0.defines(d, name) {
        let s0 = h0.data(d).defs@;
        let s1 = h1.data(d).defs@;
        lemma_position(s0, name, 0);
        lemma_position(s1, name, 0);
        assert(s1[s0.len() as int].0 == name);
        assert(position(s1, name, 0) == s0.len()) by {
            let i = position(s1, name, 0);
            if i < s0.len() {
                assert(s0[i].0 == s1[i].0);
            }
        }
    }
}

/// Exporting a name a second time, from the same script or another,
/// changes nothing: the name resolves as after the first export.
pub proof fn law_export_idempotent(
    h0: Heap,
    h1: Heap,
    h2: Heap,
    d: Domain,
    name: QNameView,
    first: Script,
    second: Script,
)
    requires
        h0.wf(),
        h0.contains(d),
        h1.definition_exported(&h0, d, name, first),
        h2.definition_exported(&h1, d, name, second),
    ensures
        h2 == h1,
        h2.script_of(d, name) == h1.script_of(d, name),
        !h0.defines(d, name) ==> h2.script_of(d, name) == Some(first),
{
    law_export_defines(h0, h1, d, name, first);
}

/// An export into a domain changes nothing for the domains created before
/// it, its ancestors among them: every name resolves from them as before.
pub proof fn law_export_spares_elders(
    h0: Heap,
    h1: Heap,
    d: Domain,
    elder: Domain,
    name: QNameView,
    script: Script,
    mn: Multiname,
)
    requires
        h0.wf(),
        h0.contains(d),
        h1.definition_exported(&h0, d, name, script),
        elder.index < d.index,
    ensures
        h1.defining_script(elder, mn) == h0.defining_script(elder, mn),
        h1.script_of(elder, name) == h0.script_of(elder, name),
    decreases elder.index,
{
    if !h0.defines(d, name) {
        assert(h1.domains@[elder.index as int] == h0.domains@[elder.index as int]);
        match h0.data(elder).parent {
            Some(p) => {
                if p.index < elder.index {
                    law_export_spares_elders(h0, h1, d, p, name, script, mn);
                }
            },
            None => {},
        }
    }
}

/// A class exported into a domain is no class of the domains created
/// before it, its ancestors among them, unless it was one already.
pub proof fn law_class_export_spares_elders(
    h0: Heap,
    h1: Heap,
    d: Domain,
    elder: Domain,
    name: QNameView,
    class: Class,
    other: QNameView,
)
    requires
        h0.wf(),
        h0.contains(d),
        h1.class_exported(&h0, d, name, class),
        elder.index < d.index,
    ensures
        h1.defines_class(elder, other) == h0.defines_class(elder, other),
    decreases elder.index,
{
    if !h0.defines_class(d, name) {
        assert(h1.domains@[elder.index as int] == h0.domains@[elder.index as int]);
        match h0.data(elder).parent {
            Some(p) => {
                if p.index < elder.index {
                    law_class_export_spares_elders(h0, h1, d, p, name, class, other);
                }
            },
            None => {},
        }
    }
}

/// In a domain without a parent, a name that the domain does not bind
/// resolves to nothing.
pub proof fn law_root_termination(heap: Heap, d: Domain, mn: Multiname)
    requires
        heap.wf(),
        heap.contains(d),
        heap.data(d).parent is None,
        resolve(heap.data(d).defs@, mn) is None,
    ensures
        heap.defining_script(d, mn) is None,
{
}

/// A buffer shorter than the least length leaves the heap as it was; any
/// other buffer becomes the active memory.
pub proof fn law_memory_floor(h0: Heap, h1: Heap, d: Domain, buffer: ByteArrayObject)
    requires
        h0.wf(),
        h0.contains(d),
        buffer.index < h0.byte_arrays@.len(),
        h1.memory_assigned(&h0, d, Some(buffer)),
    ensures
        h0.byte_arrays@[buffer.index as int]@.len() < MIN_DOMAIN_MEMORY_LENGTH ==> h1 == h0,
        h0.byte_arrays@[buffer.index as int]@.len() >= MIN_DOMAIN_MEMORY_LENGTH ==> h1.data(
            d,
        ).domain_memory == Some(buffer),
{
}

/// After the assignment of a buffer, accepted or refused, unsetting the
/// memory makes the default buffer the active one again, and the default
/// buffer is the one the domain had from the start.
pub proof fn law_memory_reverts(h0: Heap, h1: Heap, h2: Heap, d: Domain, buffer: ByteArrayObject)
    requires
        h0.wf(),
        h0.contains(d),
        h0.data(d).default_domain_memory is Some,
        buffer.index < h0.byte_arrays@.len(),
        h1.memory_assigned(&h0, d, Some(buffer)),
        h2.memory_assigned(&h1, d, None),
    ensures
        h2.uses_default_memory(d),
        h2.data(d).default_domain_memory == h0.data(d).default_domain_memory,
{
}

/// The live children are live, and they are at most as many as the entries
/// they were taken from.
pub proof fn lemma_live_children(domains: Seq<DomainData>, children: Seq<DomainWeak>, n: int)
    requires
        0 <= n <= children.len(),
    ensures
        live_children(domains, children, n).len() <= n,
        forall|j: int|
            0 <= j < live_children(domains, children, n).len() ==> {
                let c = #[trigger] live_children(domains, children, n)[j];
                c.index < domains.len() && domains[c.index as int].live
            },
    decreases n,
{
    if n > 0 {
        lemma_live_children(domains, children, n - 1);
    }
}

/// A reclaimed child is not among the children that an enumeration
/// returns, and the enumeration returns fewer domains than the registry had
/// entries: the registry, which afterwards has one entry for each domain
/// returned, has become shorter.
pub proof fn law_dead_child_pruned(heap: Heap, d: Domain, k: int)
    requires
        heap.wf(),
        heap.contains(d),
        0 <= k < heap.data(d).children@.len(),
        !heap.contains(Domain { index: heap.data(d).children@[k].index }),
    ensures
        !live_children(
            heap.domains@,
            heap.data(d).children@,
            heap.data(d).children@.len() as int,
        ).contains(Domain { index: heap.data(d).children@[k].index }),
        live_children(heap.domains@, heap.data(d).children@, heap.data(d).children@.len() as int).len()
            < heap.data(d).children@.len(),
{
    let children = heap.data(d).children@;
    lemma_live_children(heap.domains@, children, children.len() as int);
    lemma_dead_entry_shortens(heap.domains@, children, children.len() as int, k);
}

/// Where one of the first `n` entries names no live domain, fewer than `n`
/// live children come of them.
pub proof fn lemma_dead_entry_shortens(
    domains: Seq<DomainData>,
    children: Seq<DomainWeak>,
    n: int,
    k: int,
)
    requires
        0 <= k < n <= children.len(),
        !(children[k].index < domains.len() && domains[children[k].index as int].live),
    ensures
        live_children(domains, children, n).len() < n,
    decreases n,
{
    lemma_live_children(domains, children, n - 1);
    if k < n - 1 {
        lemma_dead_entry_shortens(domains, children, n - 1, k);
    }
}

/// Resolving a name with a parameter name gives the base class applied to
/// what the parameter name resolves to, and nothing where the parameter
/// resolves to nothing.
pub proof fn law_nested_parameter(heap: Heap, d: Domain, mn: Multiname, inner: Multiname)
    requires
        heap.wf(),
        heap.contains(d),
        mn.param == Some(Some(Box::new(inner))),
    ensures
        heap.resolved_class(d, mn) == match (heap.base_class(d, mn), heap.resolved_class(d, inner)) {
            (Some(base), Some(arg)) => Some(Class::spec_with_type_param(base, Some(arg))),
            _ => None,
        },
{
}

/// The text `Vector.<T>` denotes the vector class applied to what the text
/// `T` denotes, where the vector class is defined as a generic class and
/// `T` denotes a class. Applied to its own result, this gives the value of
/// a vector of vectors.
pub proof fn law_vector_application(
    heap: Heap,
    d: Domain,
    inner: Seq<u8>,
    vector: Class,
    argument: Class,
)
    requires
        heap.wf(),
        heap.contains(d),
        heap.defined_value(d, spec_from_qualified_name(vector_class_name())) == Ok::<
            Value,
            ErrorView,
        >(Value::ClassObject(vector)),
        vector.spec_is_generic(),
        heap.vector_value(d, inner) == Ok::<Value, ErrorView>(Value::ClassObject(argument)),
    ensures
        heap.vector_value(d, short_vector_prefix() + inner + seq![62u8]) == Ok::<Value, ErrorView>(
            Value::ClassObject(Class::spec_with_type_param(vector, Some(argument))),
        ),
{
    let text = short_vector_prefix() + inner + seq![62u8];
    assert(text.subrange(0, 8) =~= short_vector_prefix());
    assert(text.len() >= 21 ==> text.subrange(0, 21)[0] != qualified_vector_prefix()[0]);
    assert(vector_param_range(text) == Some((8int, text.len() - 1)));
    assert(text.subrange(8, text.len() - 1) =~= inner);
}

/// The qualified name of the vector class: the namespace `__AS3__.vec` and
/// the local name `Vector`.
pub proof fn law_vector_class_qname()
    ensures
        spec_from_qualified_name(vector_class_name()) == (QNameView {
            namespace: seq![95u8, 95u8, 65u8, 83u8, 51u8, 95u8, 95u8, 46u8, 118u8, 101u8, 99u8],
            local_name: seq![86u8, 101u8, 99u8, 116u8, 111u8, 114u8],
        }),
{
    let s = vector_class_name();
    reveal_with_fuel(last_double_colon, 8);
    assert(s.len() == 19);
    assert(last_double_colon(s, 19) == 11);
    assert(s.subrange(0, 11) =~= seq![
        95u8, 95u8, 65u8, 83u8, 51u8, 95u8, 95u8, 46u8, 118u8, 101u8, 99u8,
    ]);
    assert(s.subrange(13, 19) =~= seq![86u8, 101u8, 99u8, 116u8, 111u8, 114u8]);
}

/// In a text written as a vector type, the type argument begins right
/// after the first `.<` of the text and ends before its last byte.
pub proof fn law_vector_argument_place(text: Seq<u8>, from: int, to: int)
    requires
        vector_param_range(text) == Some((from, to)),
    ensures
        2 <= from <= to == text.len() - 1,
        text[from - 2] == 46u8 && text[from - 1] == 60u8,
        forall|k: int| 0 <= k < from - 2 ==> !(#[trigger] text[k] == 46u8 && text[k + 1] == 60u8),
{
    if from == 21 {
        let p = qualified_vector_prefix();
        assert forall|k: int| 0 <= k < 21 implies #[trigger] text[k] == p[k] by {
            assert(text.subrange(0, 21)[k] == text[k]);
        }
    } else {
        let p = short_vector_prefix();
        assert forall|k: int| 0 <= k < 8 implies #[trigger] text[k] == p[k] by {
            assert(text.subrange(0, 8)[k] == text[k]);
        }
    }
}

/// A text that does not end in `>` denotes the definition of the name it
/// spells, whatever it begins with.
pub proof fn law_unclosed_vector_is_plain(heap: Heap, d: Domain, text: Seq<u8>)
    requires
        text.len() == 0 || text.last() != 62u8,
    ensures
        heap.vector_value(d, text) == heap.defined_value(d, spec_from_qualified_name(text)),
{
}

} // verus!
