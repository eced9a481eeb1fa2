//! The values of the language.

use vstd::prelude::*;
use vstd::std_specs::cmp::PartialEqSpecImpl;
use crate::errors::RuntimeErrorKind;
use crate::number;
use crate::object::{Object, ObjectView, object_compare};
use crate::string::StringObject;

verus! {

/// A value: a number, a truth value, nothing, the name of a global, or an
/// object on the heap.
#[derive(Debug)]
pub enum Value {
    /// A double, as its IEEE-754 bit pattern.
    Float(u64),
    Boolean(bool),
    Null,
    /// The name of a global; found in constant pools only.
    Identifier(String),
    Object(StringObject),
}

/// How one value stands to another.
#[derive(Debug, Clone, Copy, PartialEq, Eq, Structural)]
pub enum Compare {
    Equal,
    NotEqual,
    Greater,
    Lower,
}

/// The mathematical value of a [`Value`].
pub enum ValueView {
    Float(u64),
    Boolean(bool),
    Null,
    Identifier(Seq<char>),
    Object(ObjectView),
}

impl ValueView {
    /// The name of the value's kind.
    pub open spec fn kind_name(self) -> Seq<char> {
        match self {
            ValueView::Float(_) => "float"@,
            ValueView::Boolean(_) => "boolean"@,
            ValueView::Null => "null"@,
            ValueView::Object(o) => o.kind,
            ValueView::Identifier(_) => "identifier"@,
        }
    }

    /// Every value but `false` and `null` counts as true.
    pub open spec fn truthy(self) -> bool {
        !(self == ValueView::Boolean(false) || self == ValueView::Null)
    }

    /// How the value stands to another. Numbers are ordered, with a NaN equal
    /// to everything; truth values, nulls and objects are equal or not; values
    /// of different kinds are not equal.
    pub open spec fn compare(self, other: ValueView) -> Compare {
        match (self, other) {
            (ValueView::Float(a), ValueView::Float(b)) => {
                if number::less(b, a) {
                    Compare::Greater
                } else if number::less(a, b) {
                    Compare::Lower
                } else {
                    Compare::Equal
                }
            },
            (ValueView::Boolean(a), ValueView::Boolean(b)) => {
                if a == b {
                    Compare::Equal
                } else {
                    Compare::NotEqual
                }
            },
            (ValueView::Null, ValueView::Null) => Compare::Equal,
            (ValueView::Object(a), ValueView::Object(b)) => object_compare(a, b),
            _ => Compare::NotEqual,
        }
    }

    /// Whether the value equals another: numbers as doubles do, truth values
    /// and nulls by value, objects by comparison. Values of different kinds
    /// are never equal, and the name of a global equals nothing.
    pub open spec fn equals(self, other: ValueView) -> bool {
        match (self, other) {
            (ValueView::Float(a), ValueView::Float(b)) => number::equal(a, b),
            (ValueView::Boolean(a), ValueView::Boolean(b)) => a == b,
            (ValueView::Null, ValueView::Null) => true,
            (ValueView::Object(a), ValueView::Object(b)) => {
                object_compare(a, b) == Compare::Equal
            },
            _ => false,
        }
    }

    /// The display form of every value but a number, whose decimal form takes
    /// floating-point arithmetic to write.
    pub open spec fn display(self) -> Option<Seq<char>> {
        match self {
            ValueView::Float(_) => None,
            ValueView::Boolean(b) => Some(
                if b {
                    "true"@
                } else {
                    "false"@
                },
            ),
            ValueView::Null => Some("null"@),
            ValueView::Object(o) => Some(o.text),
            ValueView::Identifier(name) => Some(
                "<value '"@ + name + "' of type identifier>"@,
            ),
        }
    }
}

impl View for Value {
    type V = ValueView;

    open spec fn view(&self) -> ValueView {
        match self {
            Value::Float(bits) => ValueView::Float(*bits),
            Value::Boolean(b) => ValueView::Boolean(*b),
            Value::Null => ValueView::Null,
            Value::Identifier(name) => ValueView::Identifier(name@),
            Value::Object(o) => ValueView::Object(o.view()),
        }
    }
}

impl DeepView for Value {
    type V = ValueView;

    open spec fn deep_view(&self) -> ValueView {
        self@
    }
}

impl Value {
    /// The name of the value's kind.
    pub fn kind_name(&self) -> (r: String)
        ensures
            r@ == self@.kind_name(),
    {
        match self {
            Value::Float(_) => String::from_str("float"),
            Value::Boolean(_) => String::from_str("boolean"),
            Value::Null => String::from_str("null"),
            Value::Object(obj) => obj.kind_name(),
            Value::Identifier(_) => String::from_str("identifier"),
        }
    }

    /// Whether the value can be negated: only a number can.
    pub fn support_negation(&self) -> (r: bool)
        ensures
            r == (self@ is Float),
    {
        matches!(self, Value::Float(_))
    }

    /// The truth of the value.
    pub fn as_bool(&self) -> (r: bool)
        ensures
            r == self@.truthy(),
    {
        !matches!(self, Value::Boolean(false) | Value::Null)
    }

    /// Compares the value with another.
    pub fn cmp(&self, other: &Value) -> (r: Result<Compare, RuntimeErrorKind>)
        ensures
            r matches Ok(c) && c == self@.compare(other@),
    {
        match (self, other) {
            (Value::Float(a), Value::Float(b)) => {
                if number::is_less(*b, *a) {
                    Ok(Compare::Greater)
                } else if number::is_less(*a, *b) {
                    Ok(Compare::Lower)
                } else {
                    Ok(Compare::Equal)
                }
            },
            (Value::Boolean(a), Value::Boolean(b)) => {
                if *a == *b {
                    Ok(Compare::Equal)
                } else {
                    Ok(Compare::NotEqual)
                }
            },
            (Value::Null, Value::Null) => Ok(Compare::Equal),
            (Value::Object(a), Value::Object(b)) => a.cmp(b),
            _ => Ok(Compare::NotEqual),
        }
    }

    /// A deep copy of the value.
    pub fn copy(&self) -> (r: Value)
        ensures
            r@ == self@,
    {
        match self {
            Value::Float(val) => Value::Float(*val),
            Value::Boolean(val) => Value::Boolean(*val),
            Value::Null => Value::Null,
            Value::Object(object) => Value::Object(object.copy()),
            Value::Identifier(val) => Value::Identifier(val.clone()),
        }
    }

    /// The display form of the value, or `None` for a number.
    pub fn display(&self) -> (r: Option<String>)
        ensures
            crate::token::text_view(r) == self@.display(),
    {
        match self {
            Value::Float(_) => None,
            Value::Boolean(value) => Some(
                if *value {
                    String::from_str("true")
                } else {
                    String::from_str("false")
                },
            ),
            Value::Null => Some(String::from_str("null")),
            Value::Object(obj) => Some(obj.display()),
            Value::Identifier(val) => {
                let mut s = String::from_str("<value '");
                s.append(val.as_str());
                s.append("' of type identifier>");
                Some(s)
            },
        }
    }
}

impl PartialEq for Value {
    fn eq(&self, other: &Self) -> (r: bool) {
        match (self, other) {
            (Value::Float(a), Value::Float(b)) => number::is_equal(*a, *b),
            (Value::Boolean(a), Value::Boolean(b)) => *a == *b,
            (Value::Null, Value::Null) => true,
            (Value::Object(a), Value::Object(b)) => {
                match a.cmp(b) {
                    Ok(c) => c == Compare::Equal,
                    Err(_) => false,
                }
            },
            _ => false,
        }
    }
}

impl PartialEqSpecImpl for Value {
    open spec fn obeys_eq_spec() -> bool {
        true
    }

    open spec fn eq_spec(&self, other: &Self) -> bool {
        self@.equals(other@)
    }
}

} // verus!
