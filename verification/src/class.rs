//! Scripts, class descriptions, values and errors.

use vstd::prelude::*;

verus! {

/// Handle of a compilation unit registered with the heap.
#[derive(Clone, Copy, Debug, PartialEq, Eq, Structural)]
pub struct Script {
    pub index: usize,
}

/// A class description: either a class as some script defined it, or a
/// generic class with its type argument filled in. Two descriptions are the
/// same class exactly when they are equal.
#[derive(Debug, PartialEq, Eq)]
pub enum Class {
    Defined { id: u64, generic: bool },
    Applied { base: Box<Class>, param: Option<Box<Class>> },
}

/// A value a definition can hold.
#[derive(Debug, PartialEq, Eq)]
pub enum Value {
    Undefined,
    Null,
    Integer(i32),
    ClassObject(Class),
}

/// The recoverable failures of this crate.
#[derive(Debug, PartialEq, Eq)]
pub enum Error {
    /// No domain of the chain defines the variable; carries its local name,
    /// or `*` when the name has none.
    UndefinedVariable { name: Vec<u8> },
    /// A buffer too short to serve as domain memory.
    EndOfFile,
    /// The defining script could not provide its globals.
    GlobalsUnavailable,
    /// The value named as a vector base is not an object.
    NotAnObject,
    /// A class that takes no type argument was applied to one.
    NotGeneric,
    /// The type argument is neither a class nor null.
    NonClassParameter,
}

/// Mathematical value of an error.
pub enum ErrorView {
    UndefinedVariable { name: Seq<u8> },
    EndOfFile,
    GlobalsUnavailable,
    NotAnObject,
    NotGeneric,
    NonClassParameter,
}

impl View for Error {
    type V = ErrorView;

    open spec fn view(&self) -> ErrorView {
        match *self {
            Error::UndefinedVariable { name } => ErrorView::UndefinedVariable { name: name@ },
            Error::EndOfFile => ErrorView::EndOfFile,
            Error::GlobalsUnavailable => ErrorView::GlobalsUnavailable,
            Error::NotAnObject => ErrorView::NotAnObject,
            Error::NotGeneric => ErrorView::NotGeneric,
            Error::NonClassParameter => ErrorView::NonClassParameter,
        }
    }
}

/// A result with its error taken by its mathematical value.
pub open spec fn outcome(r: Result<Value, Error>) -> Result<Value, ErrorView> {
    match r {
        Ok(v) => Ok(v),
        Err(e) => Err(e@),
    }
}

impl Class {
    /// `base` with `param` as its type argument; `None` is the any-type
    /// argument.
    pub open spec fn spec_with_type_param(base: Class, param: Option<Class>) -> Class {
        Class::Applied {
            base: Box::new(base),
            param: match param {
                Some(p) => Some(Box::new(p)),
                None => None,
            },
        }
    }

    pub fn with_type_param(base: Class, param: Option<Class>) -> (c: Class)
        ensures
            c == Class::spec_with_type_param(base, param),
    {
        Class::Applied {
            base: Box::new(base),
            param: match param {
                Some(p) => Some(Box::new(p)),
                None => None,
            },
        }
    }

    /// Whether the class takes a type argument.
    pub open spec fn spec_is_generic(&self) -> bool {
        match *self {
            Class::Defined { generic, .. } => generic,
            Class::Applied { .. } => false,
        }
    }

    pub fn is_generic(&self) -> (r: bool)
        ensures
            r == self.spec_is_generic(),
    {
        match self {
            Class::Defined { generic, .. } => *generic,
            Class::Applied { .. } => false,
        }
    }

    pub fn duplicate(&self) -> (c: Class)
        ensures
            c == *self,
        decreases self,
    {
        match self {
            Class::Defined { id, generic } => Class::Defined { id: *id, generic: *generic },
            Class::Applied { base, param } => {
                let b = base.duplicate();
                let p = match param {
                    Some(p) => Some(Box::new(p.duplicate())),
                    None => None,
                };
                Class::Applied { base: Box::new(b), param: p }
            },
        }
    }

    /// Whether both descriptions are the same class.
    pub fn same(&self, other: &Class) -> (r: bool)
        ensures
            r == (*self == *other),
        decreases self,
    {
        match (self, other) {
            (Class::Defined { id: a, generic: g }, Class::Defined { id: b, generic: h }) => *a == *b
                && *g == *h,
            (Class::Applied { base: a, param: p }, Class::Applied { base: b, param: q }) => {
                if !a.same(b) {
                    return false;
                }
                match (p, q) {
                    (Some(x), Some(y)) => x.same(y),
                    (None, None) => true,
                    _ => false,
                }
            },
            _ => false,
        }
    }

    /// The class object `class` applied to the type argument `arg`.
    pub open spec fn spec_apply(class: Class, arg: Value) -> Result<Value, ErrorView> {
        if !class.spec_is_generic() {
            Err(ErrorView::NotGeneric)
        } else {
            match arg {
                Value::Null => Ok(Value::ClassObject(Class::spec_with_type_param(class, None))),
                Value::ClassObject(p) => Ok(
                    Value::ClassObject(Class::spec_with_type_param(class, Some(p))),
                ),
                _ => Err(ErrorView::NonClassParameter),
            }
        }
    }

    /// Applies a generic class to one type argument: null stands for the
    /// any-type argument, a class object for that class.
    pub fn apply(self, arg: Value) -> (r: Result<Value, Error>)
        ensures
            outcome(r) == Class::spec_apply(self, arg),
    {
        if !self.is_generic() {
            return Err(Error::NotGeneric);
        }
        match arg {
            Value::Null => Ok(Value::ClassObject(Class::with_type_param(self, None))),
            Value::ClassObject(p) => Ok(Value::ClassObject(Class::with_type_param(self, Some(p)))),
            _ => Err(Error::NonClassParameter),
        }
    }
}

impl Value {
    pub fn duplicate(&self) -> (v: Value)
        ensures
            v == *self,
    {
        match self {
            Value::Undefined => Value::Undefined,
            Value::Null => Value::Null,
            Value::Integer(i) => Value::Integer(*i),
            Value::ClassObject(c) => Value::ClassObject(c.duplicate()),
        }
    }
}

/// The bytes of `Error #1065: Variable `.
pub open spec fn undefined_variable_head() -> Seq<u8> {
    seq![
        69u8, 114u8, 114u8, 111u8, 114u8, 32u8, 35u8, 49u8, 48u8, 54u8, 53u8, 58u8, 32u8, 86u8,
        97u8, 114u8, 105u8, 97u8, 98u8, 108u8, 101u8, 32u8,
    ]
}

/// The bytes of ` is not defined.`.
pub open spec fn undefined_variable_tail() -> Seq<u8> {
    seq![
        32u8, 105u8, 115u8, 32u8, 110u8, 111u8, 116u8, 32u8, 100u8, 101u8, 102u8, 105u8, 110u8,
        101u8, 100u8, 46u8,
    ]
}

/// The bytes of `Error #1504: End of file.`.
pub open spec fn end_of_file_text() -> Seq<u8> {
    seq![
        69u8, 114u8, 114u8, 111u8, 114u8, 32u8, 35u8, 49u8, 53u8, 48u8, 52u8, 58u8, 32u8, 69u8,
        110u8, 100u8, 32u8, 111u8, 102u8, 32u8, 102u8, 105u8, 108u8, 101u8, 46u8,
    ]
}

/// Appends the bytes of `tail` to `out`.
pub fn append_bytes(out: &mut Vec<u8>, tail: &[u8])
    ensures
        final(out)@ == old(out)@ + tail@,
{
    let mut i: usize = 0;
    while i < tail.len()
        invariant
            i <= tail@.len(),
            out@ == old(out)@ + tail@.subrange(0, i as int),
        decreases tail@.len() - i,
    {
        out.push(tail[i]);
        i += 1;
        assert(out@ =~= old(out)@ + tail@.subrange(0, i as int));
    }
    assert(tail@.subrange(0, tail@.len() as int) =~= tail@);
}

impl Error {
    /// The message of the error as scripts see it; empty where it has none.
    pub open spec fn spec_message(e: ErrorView) -> Seq<u8> {
        match e {
            ErrorView::UndefinedVariable { name } => undefined_variable_head() + name
                + undefined_variable_tail(),
            ErrorView::EndOfFile => end_of_file_text(),
            _ => Seq::empty(),
        }
    }

    pub fn message(&self) -> (m: Vec<u8>)
        ensures
            m@ == Error::spec_message(self@),
    {
        match self {
            Error::UndefinedVariable { name } => {
                let mut m = vec![
                    69u8, 114u8, 114u8, 111u8, 114u8, 32u8, 35u8, 49u8, 48u8, 54u8, 53u8, 58u8, 32u8,
                    86u8, 97u8, 114u8, 105u8, 97u8, 98u8, 108u8, 101u8, 32u8,
                ];
                assert(m@ =~= undefined_variable_head());
                append_bytes(&mut m, name.as_slice());
                let tail = vec![
                    32u8, 105u8, 115u8, 32u8, 110u8, 111u8, 116u8, 32u8, 100u8, 101u8, 102u8, 105u8,
                    110u8, 101u8, 100u8, 46u8,
                ];
                assert(tail@ =~= undefined_variable_tail());
                append_bytes(&mut m, tail.as_slice());
                m
            },
            Error::EndOfFile => {
                let m = vec![
                    69u8, 114u8, 114u8, 111u8, 114u8, 32u8, 35u8, 49u8, 53u8, 48u8, 52u8, 58u8, 32u8,
                    69u8, 110u8, 100u8, 32u8, 111u8, 102u8, 32u8, 102u8, 105u8, 108u8, 101u8, 46u8,
                ];
                assert(m@ =~= end_of_file_text());
                m
            },
            _ => Vec::new(),
        }
    }

    /// The numeric code of the error as scripts see it; 0 where it has none.
    pub fn code(&self) -> (c: u32)
        ensures
            c == match *self {
                Error::UndefinedVariable { .. } => 1065u32,
                Error::EndOfFile => 1504u32,
                _ => 0u32,
            },
    {
        match self {
            Error::UndefinedVariable { .. } => 1065,
            Error::EndOfFile => 1504,
            _ => 0,
        }
    }
}

} // verus!
