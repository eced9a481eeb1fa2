use rlox::bin_op::BinOpKind;
use rlox::chunk::{Chunk, OpCode, OpCodeKind};
use rlox::errors::{RuntimeError, RuntimeErrorKind};
use rlox::namespace::NameSpace;
use rlox::number::{is_equal, is_less, nan, negate};
use rlox::object::Object;
use rlox::string::StringObject;
use rlox::value::{Compare, Value};
use rlox::vm::{Action, VirtualMachine};

fn float(x: f64) -> Value {
    Value::Float(x.to_bits())
}

fn text(s: &str) -> Value {
    Value::Object(StringObject::new(s.to_string()))
}

fn chunk_of(constants: Vec<Value>, code: Vec<(OpCodeKind, usize)>) -> Chunk {
    let mut chunk = Chunk::new();
    for value in constants {
        chunk.push_const(value);
    }
    for (kind, line) in code {
        chunk.push(OpCode::new(kind, line));
    }
    chunk
}

fn samples() -> Vec<f64> {
    vec![
        0.0,
        -0.0,
        1.0,
        -1.0,
        0.5,
        -0.5,
        1.5,
        2.0,
        1e300,
        -1e300,
        5e-324,
        -5e-324,
        f64::MIN_POSITIVE,
        f64::MAX,
        f64::MIN,
        f64::INFINITY,
        f64::NEG_INFINITY,
        f64::NAN,
        -f64::NAN,
        f64::from_bits(0x7ff0_0000_0000_0001),
        f64::from_bits(0xfff8_0000_0000_0000),
        f64::EPSILON,
        123456789.125,
        -123456789.125,
    ]
}

#[test]
fn numbers_are_ordered_as_doubles_are() {
    for a in samples() {
        for b in samples() {
            assert_eq!(is_less(a.to_bits(), b.to_bits()), a < b, "{} < {}", a, b);
            assert_eq!(is_equal(a.to_bits(), b.to_bits()), a == b, "{} == {}", a, b);
        }
    }
}

#[test]
fn numbers_are_negated_as_doubles_are() {
    for a in samples() {
        assert_eq!(negate(a.to_bits()), (-a).to_bits(), "{}", a);
        assert_eq!(nan(a.to_bits()), a.is_nan(), "{}", a);
    }
    assert_eq!(negate(0), 0x8000_0000_0000_0000);
    assert_eq!(negate(0x8000_0000_0000_0000), 0);
}

#[test]
fn values_compare_by_kind() {
    assert_eq!(float(1.0).cmp(&float(2.0)).unwrap(), Compare::Lower);
    assert_eq!(float(2.0).cmp(&float(1.0)).unwrap(), Compare::Greater);
    assert_eq!(float(2.0).cmp(&float(2.0)).unwrap(), Compare::Equal);
    assert_eq!(float(0.0).cmp(&float(-0.0)).unwrap(), Compare::Equal);
    assert_eq!(float(f64::NAN).cmp(&float(1.0)).unwrap(), Compare::Equal);
    assert_eq!(Value::Boolean(true).cmp(&Value::Boolean(true)).unwrap(), Compare::Equal);
    assert_eq!(Value::Boolean(true).cmp(&Value::Boolean(false)).unwrap(), Compare::NotEqual);
    assert_eq!(Value::Null.cmp(&Value::Null).unwrap(), Compare::Equal);
    assert_eq!(text("a").cmp(&text("a")).unwrap(), Compare::Equal);
    assert_eq!(text("a").cmp(&text("b")).unwrap(), Compare::NotEqual);
    assert_eq!(text("1").cmp(&float(1.0)).unwrap(), Compare::NotEqual);
    assert_eq!(Value::Null.cmp(&Value::Boolean(false)).unwrap(), Compare::NotEqual);
}

#[test]
fn values_are_equal_by_kind() {
    assert!(float(1.0) == float(1.0));
    assert!(float(0.0) == float(-0.0));
    assert!(float(f64::NAN) != float(f64::NAN));
    assert!(float(1.0) != float(2.0));
    assert!(Value::Boolean(false) == Value::Boolean(false));
    assert!(Value::Null == Value::Null);
    assert!(Value::Null != Value::Boolean(false));
    assert!(text("x") == text("x"));
    assert!(text("x") != text("y"));
    assert!(Value::Identifier("x".to_string()) != Value::Identifier("x".to_string()));
}

#[test]
fn values_have_kinds_truth_and_display_forms() {
    assert_eq!(float(1.0).kind_name(), "float");
    assert_eq!(Value::Boolean(true).kind_name(), "boolean");
    assert_eq!(Value::Null.kind_name(), "null");
    assert_eq!(text("s").kind_name(), "string");
    assert_eq!(Value::Identifier("x".to_string()).kind_name(), "identifier");
    assert!(float(0.0).support_negation());
    assert!(!text("1").support_negation());
    assert!(!Value::Null.support_negation());
    assert!(float(0.0).as_bool());
    assert!(text("").as_bool());
    assert!(Value::Boolean(true).as_bool());
    assert!(!Value::Boolean(false).as_bool());
    assert!(!Value::Null.as_bool());
    assert_eq!(float(1.0).display(), None);
    assert_eq!(Value::Boolean(true).display(), Some("true".to_string()));
    assert_eq!(Value::Boolean(false).display(), Some("false".to_string()));
    assert_eq!(Value::Null.display(), Some("null".to_string()));
    assert_eq!(text("hi").display(), Some("hi".to_string()));
    assert_eq!(
        Value::Identifier("x".to_string()).display(),
        Some("<value 'x' of type identifier>".to_string())
    );
    assert_eq!(text("deep").copy(), text("deep"));
    assert_eq!(float(2.5).copy(), float(2.5));
}

#[test]
fn string_objects_add_and_compare() {
    let a = StringObject::new("foo".to_string());
    let b = StringObject::new("bar".to_string());
    assert_eq!(a.add(&b).unwrap().value, "foobar");
    assert_eq!(b.add(&a).unwrap().value, "barfoo");
    assert_eq!(a.cmp(&b).unwrap(), Compare::NotEqual);
    assert_eq!(a.cmp(&a.copy()).unwrap(), Compare::Equal);
    assert_eq!(a.kind_name(), "string");
    assert_eq!(a.display(), "foo");
    match a.operation_not_supported(&b, "/".to_string()) {
        RuntimeErrorKind::OperationNotSupported { op, target } => {
            assert_eq!(op, "/");
            assert_eq!(target, "between string and string");
        }
        other => panic!("{:?}", other),
    }
}

#[test]
fn the_namespace_binds_and_rebinds() {
    let mut names = NameSpace::new();
    assert!(names.get("a").is_none());
    assert!(!names.contains("a"));
    names.insert("a".to_string(), float(1.0));
    names.insert("b".to_string(), text("t"));
    assert_eq!(names.get("a"), Some(float(1.0)));
    assert_eq!(names.get("b"), Some(text("t")));
    names.insert("a".to_string(), Value::Null);
    assert_eq!(names.get("a"), Some(Value::Null));
    assert!(names.contains("b"));
    assert!(names.get("c").is_none());
}

#[test]
fn an_empty_stack_is_a_missing_value() {
    for kind in [
        OpCodeKind::Pop,
        OpCodeKind::Print,
        OpCodeKind::Not,
        OpCodeKind::Negate,
        OpCodeKind::Add,
        OpCodeKind::Eq,
        OpCodeKind::Lt,
        OpCodeKind::ReadLocal { name_idx: 0 },
        OpCodeKind::SetLocal { name_idx: 0 },
    ] {
        let chunk = chunk_of(vec![], vec![(kind, 9)]);
        let mut vm = VirtualMachine::new();
        match vm.exec(&chunk) {
            Err(RuntimeError { kind: RuntimeErrorKind::MissingValue, line }) => assert_eq!(line, 9),
            other => panic!("{:?}", other),
        }
        assert_eq!(vm.ip(), 1);
    }
    let chunk = chunk_of(vec![], vec![(OpCodeKind::True, 1), (OpCodeKind::Sub, 2)]);
    let mut vm = VirtualMachine::new();
    assert!(matches!(
        vm.exec(&chunk),
        Err(RuntimeError { kind: RuntimeErrorKind::MissingValue, line: 2 })
    ));
    assert_eq!(vm.depth(), 0);
}

#[test]
fn a_constant_that_is_no_name_is_a_type_error() {
    let chunk = chunk_of(vec![float(1.0)], vec![(OpCodeKind::ReadGlobal { name_idx: 0 }, 3)]);
    let mut vm = VirtualMachine::new();
    match vm.exec(&chunk) {
        Err(e) => {
            assert_eq!(e.line, 3);
            assert_eq!(e.message(), "[line 3] Runtime error:\nTypeError: expected identifier, got float");
            match e.kind {
                RuntimeErrorKind::TypeError { expected, got } => {
                    assert_eq!(expected, "identifier");
                    assert_eq!(got, "float");
                }
                other => panic!("{:?}", other),
            }
        }
        other => panic!("{:?}", other),
    }
}

#[test]
fn arithmetic_on_numbers_is_handed_to_the_driver() {
    let chunk = chunk_of(
        vec![float(6.0), float(3.0)],
        vec![
            (OpCodeKind::Const { const_idx: 0 }, 1),
            (OpCodeKind::Const { const_idx: 1 }, 1),
            (OpCodeKind::Div, 1),
            (OpCodeKind::Print, 1),
        ],
    );
    let mut vm = VirtualMachine::new();
    match vm.exec(&chunk) {
        Ok(Action::Arithmetic { op, left, right }) => {
            assert_eq!(op, BinOpKind::DIV);
            assert_eq!(left, 6f64.to_bits());
            assert_eq!(right, 3f64.to_bits());
        }
        other => panic!("{:?}", other),
    }
    assert_eq!(vm.depth(), 0);
    assert_eq!(vm.ip(), 3);
    match vm.resume(&chunk, 2f64.to_bits()) {
        Ok(Action::PrintNumber(bits)) => assert_eq!(bits, 2f64.to_bits()),
        other => panic!("{:?}", other),
    }
    assert!(matches!(vm.exec(&chunk), Ok(Action::Halt)));
    assert!(matches!(vm.exec(&chunk), Ok(Action::Halt)));
    assert_eq!(vm.ip(), 4);
}

#[test]
fn locals_are_slots_of_the_stack() {
    let chunk = chunk_of(
        vec![float(1.0), float(2.0)],
        vec![
            (OpCodeKind::Const { const_idx: 0 }, 1),
            (OpCodeKind::Const { const_idx: 1 }, 1),
            (OpCodeKind::ReadLocal { name_idx: 0 }, 1),
            (OpCodeKind::SetLocal { name_idx: 1 }, 1),
        ],
    );
    let mut vm = VirtualMachine::new();
    assert!(matches!(vm.exec(&chunk), Ok(Action::Halt)));
    assert_eq!(vm.depth(), 3);
    assert_eq!(vm.top(), Some(float(1.0)));
    let more = chunk_of(vec![], vec![(OpCodeKind::Pop, 1), (OpCodeKind::Negate, 1)]);
    let mut again = VirtualMachine::new();
    assert!(again.exec(&more).is_err());
    let mut chunk = chunk;
    chunk.push(OpCode::new(OpCodeKind::Pop, 2));
    assert!(matches!(vm.exec(&chunk), Ok(Action::Halt)));
    assert_eq!(vm.top(), Some(float(1.0)));
    assert_eq!(vm.depth(), 2);
}

#[test]
fn negation_flips_the_sign_on_the_stack() {
    let chunk = chunk_of(
        vec![float(2.5)],
        vec![(OpCodeKind::Const { const_idx: 0 }, 1), (OpCodeKind::Negate, 1)],
    );
    let mut vm = VirtualMachine::new();
    assert!(matches!(vm.exec(&chunk), Ok(Action::Halt)));
    assert_eq!(vm.top(), Some(float(-2.5)));
}

#[test]
fn runtime_errors_are_reported_with_their_line() {
    let cases: Vec<(RuntimeErrorKind, &str)> = vec![
        (RuntimeErrorKind::MissingValue, "MissingStackValueError"),
        (
            RuntimeErrorKind::OperationNotSupported {
                target: "between string and float".to_string(),
                op: "-".to_string(),
            },
            "OperationNotSupportedError: - is not supported between string and float",
        ),
        (
            RuntimeErrorKind::UndefinedVariable { name: "y".to_string() },
            "UndefinedVariableError: name 'y' is not defined",
        ),
        (
            RuntimeErrorKind::AlreadyDefinedVariable { name: "x".to_string() },
            "AlreadyDefinedVariableError: name 'x' is already defined",
        ),
        (
            RuntimeErrorKind::TypeError { expected: "identifier".to_string(), got: "null".to_string() },
            "TypeError: expected identifier, got null",
        ),
    ];
    for (kind, expected) in cases {
        assert_eq!(kind.message(), expected);
        let error = RuntimeError { kind, line: 120 };
        assert_eq!(error.message(), format!("[line 120] Runtime error:\n{}", expected));
    }
}

#[test]
fn the_operators_have_their_symbols() {
    assert_eq!(BinOpKind::ADD.symbol(), "+");
    assert_eq!(BinOpKind::SUB.symbol(), "-");
    assert_eq!(BinOpKind::MUL.symbol(), "*");
    assert_eq!(BinOpKind::DIV.symbol(), "/");
}
