//! Qualified names and multinames over byte strings.

use vstd::prelude::*;

verus! {

/// Mathematical value of a qualified name.
pub struct QNameView {
    pub namespace: Seq<u8>,
    pub local_name: Seq<u8>,
}

/// A namespace together with a local name.
#[derive(Debug, PartialEq, Eq)]
pub struct QName {
    pub namespace: Vec<u8>,
    pub local_name: Vec<u8>,
}

/// A lookup descriptor: candidate namespaces, a local name, and an optional
/// type parameter. `param` is `None` when the name carries no parameter,
/// `Some(None)` when it carries the any-type parameter, and `Some(Some(p))`
/// when it carries the parameter name `p`.
#[derive(Debug, PartialEq, Eq)]
pub struct Multiname {
    pub namespace_set: Vec<Vec<u8>>,
    pub local_name: Option<Vec<u8>>,
    pub param: Option<Option<Box<Multiname>>>,
}

impl View for QName {
    type V = QNameView;

    open spec fn view(&self) -> QNameView {
        QNameView { namespace: self.namespace@, local_name: self.local_name@ }
    }
}

/// Whether two byte strings hold the same bytes.
pub fn bytes_eq(a: &[u8], b: &[u8]) -> (same: bool)
    ensures
        same == (a@ == b@),
{
    if a.len() != b.len() {
        return false;
    }
    let mut i: usize = 0;
    while i < a.len()
        invariant
            a@.len() == b@.len(),
            i <= a@.len(),
            forall|k: int| 0 <= k < i ==> a@[k] == b@[k],
        decreases a@.len() - i,
    {
        if a[i] != b[i] {
            return false;
        }
        i += 1;
    }
    assert(a@ =~= b@);
    true
}

/// A fresh vector holding the bytes of `a[from..to]`.
pub fn copy_range(a: &[u8], from: usize, to: usize) -> (v: Vec<u8>)
    requires
        from <= to <= a@.len(),
    ensures
        v@ == a@.subrange(from as int, to as int),
{
    let mut v: Vec<u8> = Vec::new();
    let mut i: usize = from;
    while i < to
        invariant
            from <= i <= to <= a@.len(),
            v@ == a@.subrange(from as int, i as int),
        decreases to - i,
    {
        v.push(a[i]);
        i += 1;
        assert(v@ =~= a@.subrange(from as int, i as int));
    }
    v
}

/// A fresh vector holding the bytes of `a`.
pub fn copy_bytes(a: &[u8]) -> (v: Vec<u8>)
    ensures
        v@ == a@,
{
    let v = copy_range(a, 0, a.len());
    assert(a@.subrange(0, a@.len() as int) =~= a@);
    v
}

impl QName {
    pub fn new(namespace: Vec<u8>, local_name: Vec<u8>) -> (q: QName)
        ensures
            q@ == (QNameView { namespace: namespace@, local_name: local_name@ }),
    {
        QName { namespace, local_name }
    }

    /// Whether both names have the same namespace and the same local name.
    pub fn same(&self, other: &QName) -> (r: bool)
        ensures
            r == (self@ == other@),
    {
        let r = bytes_eq(self.namespace.as_slice(), other.namespace.as_slice()) && bytes_eq(
            self.local_name.as_slice(),
            other.local_name.as_slice(),
        );
        r
    }

    pub fn duplicate(&self) -> (q: QName)
        ensures
            q@ == self@,
    {
        QName {
            namespace: copy_bytes(self.namespace.as_slice()),
            local_name: copy_bytes(self.local_name.as_slice()),
        }
    }
}

impl Multiname {
    /// The local name as a byte sequence, if the multiname has one.
    pub open spec fn spec_local_name(&self) -> Option<Seq<u8>> {
        match self.local_name {
            Some(l) => Some(l@),
            None => None,
        }
    }

    /// Whether `ns` is one of the candidate namespaces.
    pub open spec fn contains_namespace(&self, ns: Seq<u8>) -> bool {
        exists|i: int| 0 <= i < self.namespace_set@.len() && #[trigger] self.namespace_set@[i]@ == ns
    }

    /// Whether the qualified name `q` is one this multiname can stand for.
    pub open spec fn accepts(&self, q: QNameView) -> bool {
        self.spec_local_name() == Some(q.local_name) && self.contains_namespace(q.namespace)
    }

    /// The multiname that stands for exactly the qualified name `q`.
    pub fn from_qname(q: &QName) -> (m: Multiname)
        ensures
            m.param is None,
            forall|n: QNameView| m.accepts(n) <==> n == q@,
    {
        let mut set: Vec<Vec<u8>> = Vec::new();
        set.push(copy_bytes(q.namespace.as_slice()));
        let m = Multiname {
            namespace_set: set,
            local_name: Some(copy_bytes(q.local_name.as_slice())),
            param: None,
        };
        proof {
            assert(m.namespace_set@[0]@ == q@.namespace);
            assert forall|n: QNameView| m.accepts(n) <==> n == q@ by {
                if n == q@ {
                    assert(m.contains_namespace(n.namespace));
                }
            }
        }
        m
    }

    /// Whether `ns` is one of the candidate namespaces.
    pub fn has_namespace(&self, ns: &[u8]) -> (r: bool)
        ensures
            r == self.contains_namespace(ns@),
    {
        let mut i: usize = 0;
        while i < self.namespace_set.len()
            invariant
                i <= self.namespace_set@.len(),
                forall|k: int| 0 <= k < i ==> #[trigger] self.namespace_set@[k]@ != ns@,
            decreases self.namespace_set@.len() - i,
        {
            if bytes_eq(self.namespace_set[i].as_slice(), ns) {
                return true;
            }
            i += 1;
        }
        false
    }

    /// Whether this multiname can stand for `q`.
    pub fn matches_name(&self, q: &QName) -> (r: bool)
        ensures
            r == self.accepts(q@),
    {
        match &self.local_name {
            Some(l) => bytes_eq(l.as_slice(), q.local_name.as_slice()) && self.has_namespace(
                q.namespace.as_slice(),
            ),
            None => false,
        }
    }
}

} // verus!
