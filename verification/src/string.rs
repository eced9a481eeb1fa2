//! The string object.

use vstd::prelude::*;
use crate::errors::RuntimeErrorKind;
use crate::object::{Object, ObjectView, string_kind};
use crate::value::Compare;

verus! {

/// A string on the heap.
#[derive(Debug)]
pub struct StringObject {
    pub value: String,
}

impl StringObject {
    /// The string object of a text.
    pub fn new(value: String) -> (r: StringObject)
        ensures
            r.value == value,
    {
        Self { value }
    }
}

impl Object for StringObject {
    open spec fn view(&self) -> ObjectView {
        ObjectView { kind: string_kind(), text: self.value@ }
    }

    fn kind_name(&self) -> (r: String) {
        String::from_str("string")
    }

    fn display(&self) -> (r: String) {
        self.value.clone()
    }

    fn copy(&self) -> (r: Self) {
        StringObject::new(self.value.clone())
    }

    fn cmp(&self, other: &Self) -> (r: Result<Compare, RuntimeErrorKind>) {
        if other.kind_name() != self.kind_name() {
            return Ok(Compare::NotEqual);
        }
        let text = other.display();
        if text == self.value {
            Ok(Compare::Equal)
        } else {
            Ok(Compare::NotEqual)
        }
    }

    fn add(&self, other: &Self) -> (r: Result<Self, RuntimeErrorKind>) {
        if other.kind_name() != self.kind_name() {
            return Err(self.operation_not_supported(other, String::from_str("+")));
        }
        let text = other.display();
        let mut concatenated_string = String::new();
        concatenated_string.append(self.value.as_str());
        concatenated_string.append(text.as_str());
        assert(concatenated_string@ =~= self.value@ + text@);
        Ok(StringObject::new(concatenated_string))
    }
}

} // verus!
