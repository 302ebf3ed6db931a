//! Looking up values by qualified name and by the written form of a name,
//! where `Vector.<T>` stands for the vector class applied to `T`.

use vstd::prelude::*;
use crate::class::{outcome, Class, Error, ErrorView, Value};
use crate::domain::{Domain, Heap};
use crate::names::{copy_range, Multiname, QName, QNameView};
use crate::property_map::{first_match, lemma_position, lookup, position};

verus! {

/// The bytes of `__AS3__.vec::Vector.<`.
pub open spec fn qualified_vector_prefix() -> Seq<u8> {
    seq![
        95u8, 95u8, 65u8, 83u8, 51u8, 95u8, 95u8, 46u8, 118u8, 101u8, 99u8, 58u8, 58u8, 86u8, 101u8,
        99u8, 116u8, 111u8, 114u8, 46u8, 60u8,
    ]
}

/// The bytes of `Vector.<`.
pub open spec fn short_vector_prefix() -> Seq<u8> {
    seq![86u8, 101u8, 99u8, 116u8, 111u8, 114u8, 46u8, 60u8]
}

/// The bytes of `__AS3__.vec::Vector`, the qualified name of the vector class.
pub open spec fn vector_class_name() -> Seq<u8> {
    qualified_vector_prefix().subrange(0, 19)
}

/// Whether `s` begins with `p`.
pub open spec fn has_prefix(s: Seq<u8>, p: Seq<u8>) -> bool {
    p.len() <= s.len() && s.subrange(0, p.len() as int) == p
}

/// For a name written as a vector type, the place of its type argument:
/// the bytes from the end of the prefix to the closing `>`. A name that does
/// not begin with one of the two prefixes, or does not end in `>`, is no
/// vector type.
pub open spec fn vector_param_range(s: Seq<u8>) -> Option<(int, int)> {
    if s.len() > 0 && s.last() == 62u8 {
        if has_prefix(s, qualified_vector_prefix()) {
            Some((21int, s.len() - 1))
        } else if has_prefix(s, short_vector_prefix()) {
            Some((8int, s.len() - 1))
        } else {
            None
        }
    } else {
        None
    }
}

/// The start of the last `::` that ends at or before `n`, or -1.
pub open spec fn last_double_colon(s: Seq<u8>, n: int) -> int
    decreases n,
{
    if n < 2 || n > s.len() {
        -1
    } else if s[n - 2] == 58u8 && s[n - 1] == 58u8 {
        n - 2
    } else {
        last_double_colon(s, n - 1)
    }
}

/// The place of the last `.` before `n`, or -1.
pub open spec fn last_dot(s: Seq<u8>, n: int) -> int
    decreases n,
{
    if n < 1 || n > s.len() {
        -1
    } else if s[n - 1] == 46u8 {
        n - 1
    } else {
        last_dot(s, n - 1)
    }
}

/// The qualified name that the text `s` denotes: what stands before the
/// last `::` is the namespace; without a `::`, what stands before the last
/// `.`; without either, the namespace is empty.
pub open spec fn spec_from_qualified_name(s: Seq<u8>) -> QNameView {
    let c = last_double_colon(s, s.len() as int);
    let d = last_dot(s, s.len() as int);
    if c >= 0 {
        QNameView { namespace: s.subrange(0, c), local_name: s.subrange(c + 2, s.len() as int) }
    } else if d >= 0 {
        QNameView { namespace: s.subrange(0, d), local_name: s.subrange(d + 1, s.len() as int) }
    } else {
        QNameView { namespace: Seq::empty(), local_name: s }
    }
}

/// A multiname that accepts one name only resolves in a map as that name does.
pub proof fn lemma_exact_match<V>(s: Seq<(QNameView, V)>, mn: Multiname, name: QNameView, from: int)
    requires
        forall|n: QNameView| mn.accepts(n) <==> n == name,
        0 <= from <= s.len(),
    ensures
        first_match(s, mn, from) == position(s, name, from),
    decreases s.len() - from,
{
    if from < s.len() && s[from].0 != name {
        lemma_exact_match(s, mn, name, from + 1);
    }
}

fn qualified_prefix_bytes() -> (v: Vec<u8>)
    ensures
        v@ == qualified_vector_prefix(),
{
    let v = vec![
        95u8, 95u8, 65u8, 83u8, 51u8, 95u8, 95u8, 46u8, 118u8, 101u8, 99u8, 58u8, 58u8, 86u8, 101u8,
        99u8, 116u8, 111u8, 114u8, 46u8, 60u8,
    ];
    assert(v@ =~= qualified_vector_prefix());
    v
}

fn short_prefix_bytes() -> (v: Vec<u8>)
    ensures
        v@ == short_vector_prefix(),
{
    let v = vec![86u8, 101u8, 99u8, 116u8, 111u8, 114u8, 46u8, 60u8];
    assert(v@ =~= short_vector_prefix());
    v
}

/// Whether `name` begins with `prefix`.
pub fn starts_with(name: &[u8], prefix: &[u8]) -> (r: bool)
    ensures
        r == has_prefix(name@, prefix@),
{
    if prefix.len() > name.len() {
        return false;
    }
    let mut i: usize = 0;
    while i < prefix.len()
        invariant
            prefix@.len() <= name@.len(),
            i <= prefix@.len(),
            forall|k: int| 0 <= k < i ==> name@[k] == prefix@[k],
        decreases prefix@.len() - i,
    {
        if name[i] != prefix[i] {
            assert(name@.subrange(0, prefix@.len() as int)[i as int] != prefix@[i as int]);
            return false;
        }
        i += 1;
    }
    assert(name@.subrange(0, prefix@.len() as int) =~= prefix@);
    true
}

/// Where the type argument of a name written as a vector type stands, or
/// `None` for any other name.
pub fn vector_type_name(name: &[u8]) -> (r: Option<(usize, usize)>)
    ensures
        match r {
            Some((from, to)) => vector_param_range(name@) == Some((from as int, to as int)) && from
                <= to < name@.len(),
            None => vector_param_range(name@) is None,
        },
{
    let n = name.len();
    if n == 0 || name[n - 1] != 62u8 {
        return None;
    }
    let long = qualified_prefix_bytes();
    let short = short_prefix_bytes();
    if starts_with(name, long.as_slice()) {
        assert(name@[20] == qualified_vector_prefix()[20]) by {
            assert(name@.subrange(0, 21)[20] == name@[20]);
        }
        Some((21, n - 1))
    } else if starts_with(name, short.as_slice()) {
        assert(name@[7] == short_vector_prefix()[7]) by {
            assert(name@.subrange(0, 8)[7] == name@[7]);
        }
        Some((8, n - 1))
    } else {
        None
    }
}

impl QName {
    /// The qualified name that the text `name` denotes.
    pub fn from_qualified_name(name: &[u8]) -> (q: QName)
        ensures
            q@ == spec_from_qualified_name(name@),
    {
        let n = name.len();
        let mut i: usize = n;
        while i >= 2
            invariant
                i <= n,
                n == name@.len(),
                last_double_colon(name@, n as int) == last_double_colon(name@, i as int),
            decreases i,
        {
            if name[i - 2] == 58u8 && name[i - 1] == 58u8 {
                return QName::new(copy_range(name, 0, i - 2), copy_range(name, i, n));
            }
            i -= 1;
        }
        let mut j: usize = n;
        while j >= 1
            invariant
                j <= n,
                n == name@.len(),
                last_double_colon(name@, n as int) == -1,
                last_dot(name@, n as int) == last_dot(name@, j as int),
            decreases j,
        {
            if name[j - 1] == 46u8 {
                return QName::new(copy_range(name, 0, j - 1), copy_range(name, j, n));
            }
            j -= 1;
        }
        let local = copy_range(name, 0, n);
        assert(name@.subrange(0, n as int) =~= name@);
        QName::new(Vec::new(), local)
    }
}

impl Heap {
    /// The value of the definition `name` as seen from `d`: the value that
    /// the globals of the defining script bind to it, undefined when they
    /// bind none.
    pub open spec fn defined_value(&self, d: Domain, name: QNameView) -> Result<Value, ErrorView> {
        match self.script_of(d, name) {
            None => Err(ErrorView::UndefinedVariable { name: name.local_name }),
            Some(script) => if script.index < self.scripts@.len() && self.scripts@[script.index as int].globals is Some {
                match lookup(self.scripts@[script.index as int].globals.unwrap()@, name) {
                    Some(v) => Ok(v),
                    None => Ok(Value::Undefined),
                }
            } else {
                Err(ErrorView::GlobalsUnavailable)
            },
        }
    }

    /// The value that the written name `text` denotes as seen from `d`. A
    /// vector type denotes the vector class applied to what its type
    /// argument denotes; any other text denotes the definition of that name.
    pub open spec fn vector_value(&self, d: Domain, text: Seq<u8>) -> Result<Value, ErrorView>
        decreases text.len(),
    {
        match vector_param_range(text) {
            Some((from, to)) => {
                let base = self.defined_value(d, spec_from_qualified_name(vector_class_name()));
                if 0 <= from <= to < text.len() {
                    match self.vector_value(d, text.subrange(from, to)) {
                        Err(e) => Err(e),
                        Ok(type_class) => match base {
                            Ok(Value::ClassObject(class)) => Class::spec_apply(class, type_class),
                            Ok(_) => Err(ErrorView::NotAnObject),
                            Err(e) => Err(e),
                        },
                    }
                } else {
                    base
                }
            },
            None => self.defined_value(d, spec_from_qualified_name(text)),
        }
    }

    /// A multiname that accepts one name only resolves to the script of
    /// that name.
    pub proof fn lemma_exact_defining_script(&self, d: Domain, mn: Multiname, name: QNameView)
        requires
            forall|n: QNameView| mn.accepts(n) <==> n == name,
        ensures
            self.defining_script(d, mn) == match self.script_of(d, name) {
                Some(s) => Some((name, s)),
                None => None,
            },
        decreases d.index,
    {
        if d.index < self.domains@.len() {
            let s = self.data(d).defs@;
            lemma_exact_match(s, mn, name, 0);
            lemma_position(s, name, 0);
            if lookup(s, name) is None {
                match self.data(d).parent {
                    Some(p) => {
                        if p.index < d.index {
                            self.lemma_exact_defining_script(p, mn, name);
                        }
                    },
                    None => {},
                }
            }
        }
    }
}

impl Domain {
    /// The value of the definition `name`: the defining script is found
    /// along the chain of parents and its globals are asked for the name.
    pub fn get_defined_value(self, heap: &Heap, name: &QName) -> (r: Result<Value, Error>)
        requires
            heap.wf(),
            heap.contains(self),
        ensures
            outcome(r) == heap.defined_value(self, name@),
    {
        let mn = Multiname::from_qname(name);
        proof {
            heap.lemma_exact_defining_script(self, mn, name@);
            assert(mn.accepts(name@));
        }
        match self.find_defining_script(heap, &mn) {
            Err(e) => Err(e),
            Ok((found, script)) => {
                if script.index >= heap.scripts.len() {
                    return Err(Error::GlobalsUnavailable);
                }
                match &heap.scripts[script.index].globals {
                    None => Err(Error::GlobalsUnavailable),
                    Some(globals) => match globals.get(&found) {
                        Some(v) => Ok(v.duplicate()),
                        None => Ok(Value::Undefined),
                    },
                }
            },
        }
    }

    /// The value that the written name `name` denotes. `Vector.<T>` and
    /// `__AS3__.vec::Vector.<T>` denote the vector class applied to what `T`
    /// denotes, to any depth; a name of any other form, one without the
    /// closing bracket too, denotes the definition of that name.
    pub fn get_defined_value_handling_vector(self, heap: &Heap, name: &[u8]) -> (r: Result<
        Value,
        Error,
    >)
        requires
            heap.wf(),
            heap.contains(self),
        ensures
            outcome(r) == heap.vector_value(self, name@),
        decreases name@.len(),
    {
        match vector_type_name(name) {
            Some((from, to)) => {
                let long = qualified_prefix_bytes();
                let base_text = copy_range(long.as_slice(), 0, 19);
                let base_name = QName::from_qualified_name(base_text.as_slice());
                let res = self.get_defined_value(heap, &base_name);
                let argument_text = copy_range(name, from, to);
                match self.get_defined_value_handling_vector(heap, argument_text.as_slice()) {
                    Err(e) => Err(e),
                    Ok(type_class) => match res {
                        Ok(Value::ClassObject(class)) => class.apply(type_class),
                        Ok(_) => Err(Error::NotAnObject),
                        Err(e) => Err(e),
                    },
                }
            },
            None => {
                let qname = QName::from_qualified_name(name);
                self.get_defined_value(heap, &qname)
            },
        }
    }
}

} // verus!
