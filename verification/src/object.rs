//! Heap objects: what every object can do, and how two objects combine.

use vstd::prelude::*;
use crate::errors::{RuntimeErrorKind, RuntimeErrorKindView};
use crate::value::Compare;

verus! {

/// The mathematical value of an object: the name of its kind and its display
/// form.
pub struct ObjectView {
    pub kind: Seq<char>,
    pub text: Seq<char>,
}

/// The name of the kind of strings.
pub open spec fn string_kind() -> Seq<char> {
    "string"@
}

/// How two objects compare: two strings with the same text are equal, and
/// every other pair is not.
pub open spec fn object_compare(a: ObjectView, b: ObjectView) -> Compare {
    if a.kind == string_kind() && b.kind == string_kind() && a.text == b.text {
        Compare::Equal
    } else {
        Compare::NotEqual
    }
}

/// The error of an operator that two kinds of operand do not support.
pub open spec fn not_supported(op: Seq<char>, left: Seq<char>, right: Seq<char>)
    -> RuntimeErrorKindView {
    RuntimeErrorKindView::OperationNotSupported {
        target: "between "@ + left + " and "@ + right,
        op,
    }
}

/// The sum of two objects: two strings concatenate, and no other pair has a
/// sum.
pub open spec fn object_sum(a: ObjectView, b: ObjectView) -> Result<
    ObjectView,
    RuntimeErrorKindView,
> {
    if a.kind == string_kind() && b.kind == string_kind() {
        Ok(ObjectView { kind: string_kind(), text: a.text + b.text })
    } else {
        Err(not_supported("+"@, a.kind, b.kind))
    }
}

/// Builds the error of an operator that two kinds of operand do not support.
pub fn unsupported(op: String, left: &str, right: &str) -> (r: RuntimeErrorKind)
    ensures
        r@ == not_supported(op@, left@, right@),
{
    let mut target = String::from_str("between ");
    target.append(left);
    target.append(" and ");
    target.append(right);
    RuntimeErrorKind::OperationNotSupported { target, op }
}

/// The capability of a heap object.
pub trait Object: Sized {
    /// The kind and the display form of the object.
    spec fn view(&self) -> ObjectView;

    /// The name of the object's kind.
    fn kind_name(&self) -> (r: String)
        ensures
            r@ == self.view().kind,
    ;

    /// The display form of the object.
    fn display(&self) -> (r: String)
        ensures
            r@ == self.view().text,
    ;

    /// A deep copy of the object.
    fn copy(&self) -> (r: Self)
        ensures
            r.view() == self.view(),
    ;

    /// Compares the object with another.
    fn cmp(&self, other: &Self) -> (r: Result<Compare, RuntimeErrorKind>)
        ensures
            r matches Ok(c) && c == object_compare(self.view(), other.view()),
    ;

    /// The error of an operator that this object and another do not support.
    fn operation_not_supported(&self, other: &Self, op: String) -> (r: RuntimeErrorKind)
        ensures
            r@ == not_supported(op@, self.view().kind, other.view().kind),
    {
        let left = self.kind_name();
        let right = other.kind_name();
        unsupported(op, left.as_str(), right.as_str())
    }

    /// Adds another object to this one.
    fn add(&self, other: &Self) -> (r: Result<Self, RuntimeErrorKind>)
        ensures
            match object_sum(self.view(), other.view()) {
                Ok(v) => r matches Ok(w) && w.view() == v,
                Err(e) => r matches Err(f) && f@ == e,
            },
    ;
}

} // verus!
