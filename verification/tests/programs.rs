use rlox::bin_op::BinOpKind;
use rlox::chunk::{Chunk, OpCode, OpCodeKind};
use rlox::errors::{ErrorPlace, RuntimeErrorKind};
use rlox::interpret::{interpret, number_literals, InterpretError};
use rlox::value::Value;
use rlox::vm::{Action, VirtualMachine};

fn numbers_of(source: &str) -> Vec<u64> {
    number_literals(source)
        .iter()
        .map(|lexeme| lexeme.parse::<f64>().unwrap().to_bits())
        .collect()
}

fn arithmetic(op: BinOpKind, left: u64, right: u64) -> u64 {
    let a = f64::from_bits(left);
    let b = f64::from_bits(right);
    let r = match op {
        BinOpKind::ADD => a + b,
        BinOpKind::SUB => a - b,
        BinOpKind::MUL => a * b,
        BinOpKind::DIV => a / b,
    };
    r.to_bits()
}

fn drive(
    first: Result<Action, InterpretError>,
    chunk: &Chunk,
    vm: &mut VirtualMachine,
    out: &mut Vec<String>,
) -> Result<(), InterpretError> {
    let mut step = first;
    loop {
        match step {
            Ok(Action::Halt) => return Ok(()),
            Ok(Action::Print(text)) => {
                out.push(text);
                step = vm.exec(chunk).map_err(InterpretError::Runtime);
            }
            Ok(Action::PrintNumber(bits)) => {
                out.push(format!("{}", f64::from_bits(bits)));
                step = vm.exec(chunk).map_err(InterpretError::Runtime);
            }
            Ok(Action::Arithmetic { op, left, right }) => {
                step = vm
                    .resume(chunk, arithmetic(op, left, right))
                    .map_err(InterpretError::Runtime);
            }
            Err(e) => return Err(e),
        }
    }
}

fn run_line(
    source: &str,
    chunk: &mut Chunk,
    vm: &mut VirtualMachine,
    out: &mut Vec<String>,
) -> Result<(), InterpretError> {
    let first = interpret(source, numbers_of(source), chunk, vm);
    drive(first, chunk, vm, out)
}

fn run(source: &str) -> (Vec<String>, Result<(), InterpretError>, VirtualMachine, Chunk) {
    let mut chunk = Chunk::new();
    let mut vm = VirtualMachine::new();
    let mut out = Vec::new();
    let r = run_line(source, &mut chunk, &mut vm, &mut out);
    (out, r, vm, chunk)
}

fn output(source: &str) -> Vec<String> {
    let (out, r, _, _) = run(source);
    assert!(r.is_ok(), "{:?}", r);
    out
}

fn runtime_error(source: &str) -> (RuntimeErrorKind, usize) {
    match run(source).1 {
        Err(InterpretError::Runtime(e)) => (e.kind, e.line),
        other => panic!("no runtime error: {:?}", other),
    }
}

fn parse_error(source: &str) -> (usize, String, String) {
    match run(source).1 {
        Err(InterpretError::Parsing(e)) => {
            let place = match e.place {
                ErrorPlace::End => "end".to_string(),
                ErrorPlace::Lexeme(s) => format!("'{}'", s),
                ErrorPlace::Unformed => "".to_string(),
            };
            (e.line, place, e.message)
        }
        other => panic!("no parse error: {:?}", other),
    }
}

#[test]
fn arithmetic_with_grouping() {
    assert_eq!(output("print (1 + 2) * 3;"), vec!["9"]);
}

#[test]
fn boolean_negation_of_equality() {
    assert_eq!(output("print !(5 == 4);"), vec!["true"]);
}

#[test]
fn string_concatenation() {
    assert_eq!(output("print \"foo\" + \"bar\";"), vec!["foobar"]);
    assert_eq!(output("print \"a\" + \"b\";"), vec!["ab"]);
}

#[test]
fn globals_are_defined_assigned_and_read() {
    assert_eq!(output("let x = 10; x = x + 5; print x;"), vec!["15"]);
}

#[test]
fn a_defined_global_reads_back() {
    assert_eq!(output("let x = 3; print x;"), vec!["3"]);
    assert_eq!(output("let s = \"v\"; print s;"), vec!["v"]);
    assert_eq!(output("let n; print n;"), vec!["null"]);
}

#[test]
fn locals_shadow_and_scopes_close() {
    assert_eq!(output("let a = 1; { let a = 2; print a; } print a;"), vec!["2", "1"]);
}

#[test]
fn nested_blocks_drop_their_own_locals_only() {
    let source = "{ let a = 1; { let b = 2; let c = 3; print b + c; } let d = 4; print a + d; }";
    let (out, r, vm, _) = run(source);
    assert!(r.is_ok());
    assert_eq!(out, vec!["5", "5"]);
    assert_eq!(vm.depth(), 0);
}

#[test]
fn local_assignment_writes_the_slot() {
    assert_eq!(output("{ let a = 1; let b = 2; a = b + 5; print a; print b; }"), vec!["7", "2"]);
}

#[test]
fn undefined_variable_is_a_runtime_error() {
    let (kind, line) = runtime_error("print y;");
    match kind {
        RuntimeErrorKind::UndefinedVariable { name } => assert_eq!(name, "y"),
        other => panic!("{:?}", other),
    }
    assert_eq!(line, 1);
}

#[test]
fn assigning_an_undefined_global_is_a_runtime_error() {
    let (kind, line) = runtime_error("\n\nz = 1;");
    match kind {
        RuntimeErrorKind::UndefinedVariable { name } => assert_eq!(name, "z"),
        other => panic!("{:?}", other),
    }
    assert_eq!(line, 3);
}

#[test]
fn subtracting_a_number_from_a_string_is_not_supported() {
    let (kind, line) = runtime_error("print \"a\" - 1;");
    match kind {
        RuntimeErrorKind::OperationNotSupported { op, target } => {
            assert_eq!(op, "-");
            assert_eq!(target, "between string and float");
        }
        other => panic!("{:?}", other),
    }
    assert_eq!(line, 1);
}

#[test]
fn strings_support_only_addition() {
    let (kind, _) = runtime_error("print \"a\" * \"b\";");
    match kind {
        RuntimeErrorKind::OperationNotSupported { op, target } => {
            assert_eq!(op, "*");
            assert_eq!(target, "between string and string");
        }
        other => panic!("{:?}", other),
    }
}

#[test]
fn negating_what_is_no_number_is_not_supported() {
    let (kind, _) = runtime_error("print -true;");
    match kind {
        RuntimeErrorKind::OperationNotSupported { op, target } => {
            assert_eq!(op, "-");
            assert_eq!(target, "for true");
        }
        other => panic!("{:?}", other),
    }
    let (kind, _) = runtime_error("print -\"s\";");
    match kind {
        RuntimeErrorKind::OperationNotSupported { target, .. } => assert_eq!(target, "for s"),
        other => panic!("{:?}", other),
    }
}

#[test]
fn reading_a_local_in_its_own_initializer_is_a_parse_error() {
    let (line, place, message) = parse_error("{ let a = a; }");
    assert_eq!(message, "Cannot read local variable in its own initializer");
    assert_eq!(line, 1);
    assert_eq!(place, "'a'");
}

#[test]
fn a_global_may_mention_itself_and_fails_at_runtime() {
    let (kind, _) = runtime_error("let a = a;");
    assert!(matches!(kind, RuntimeErrorKind::UndefinedVariable { .. }));
}

#[test]
fn redefining_a_global_is_a_runtime_error() {
    let (kind, line) = runtime_error("let x = 1; let x = 2;");
    match kind {
        RuntimeErrorKind::AlreadyDefinedVariable { name } => assert_eq!(name, "x"),
        other => panic!("{:?}", other),
    }
    assert_eq!(line, 1);
}

#[test]
fn equality_agrees_with_negated_inequality() {
    let pairs = [
        ("1", "1"),
        ("1", "2"),
        ("\"a\"", "\"a\""),
        ("\"a\"", "\"b\""),
        ("true", "false"),
        ("null", "null"),
        ("1", "\"1\""),
        ("null", "false"),
        ("0 / 0", "0 / 0"),
    ];
    for (a, b) in pairs {
        let direct = output(&format!("print {} == {};", a, b));
        let negated = output(&format!("print !({} != {});", a, b));
        assert_eq!(direct, negated, "{} {}", a, b);
    }
    assert_eq!(output("print 1 == 1;"), vec!["true"]);
    assert_eq!(output("print 1 == 2;"), vec!["false"]);
    assert_eq!(output("print \"a\" == \"a\";"), vec!["true"]);
    assert_eq!(output("print 1 == \"1\";"), vec!["false"]);
    assert_eq!(output("print 0 / 0 == 0 / 0;"), vec!["false"]);
}

#[test]
fn assignment_is_an_expression_with_the_assigned_value() {
    assert_eq!(output("let a = 1; print a = 2; print a;"), vec!["2", "2"]);
    assert_eq!(output("{ let a = 1; print a = 2; print a; }"), vec!["2", "2"]);
    let mut chunk = Chunk::new();
    let name = chunk.push_const(Value::Identifier("a".to_string()));
    let one = chunk.push_const(Value::Float(1f64.to_bits()));
    let two = chunk.push_const(Value::Float(2f64.to_bits()));
    chunk.push(OpCode::new(OpCodeKind::Const { const_idx: one }, 1));
    chunk.push(OpCode::new(OpCodeKind::DefineGlobal { name_idx: name }, 1));
    chunk.push(OpCode::new(OpCodeKind::Const { const_idx: two }, 1));
    chunk.push(OpCode::new(OpCodeKind::SetGlobal { name_idx: name }, 1));
    let mut vm = VirtualMachine::new();
    assert!(matches!(vm.exec(&chunk), Ok(Action::Halt)));
    assert_eq!(vm.depth(), 1);
    assert_eq!(vm.top(), Some(Value::Float(2f64.to_bits())));
    assert_eq!(vm.global("a"), Some(Value::Float(2f64.to_bits())));
}

#[test]
fn a_program_leaves_the_stack_as_deep_as_it_found_it() {
    let sources = [
        "",
        "1;",
        "print 1 + 2 * 3 - 4 / 5;",
        "let a = 1; let b = a; a = b = 3; print a + b;",
        "{ let a = 1; { let b = a; a = 2; } { let c = 3; print c; } }",
        "let s = \"x\" + \"y\"; print s == \"xy\"; print !(1 < 2) == (1 >= 2);",
    ];
    for source in sources {
        let (_, r, vm, _) = run(source);
        assert!(r.is_ok(), "{}", source);
        assert_eq!(vm.depth(), 0, "{}", source);
    }
}

#[test]
fn every_instruction_has_a_line_and_every_index_a_constant() {
    let source = "let a = 1;\nlet b = \"s\";\n{ let c = a; print c + 2; }\nprint b;\na = 3;";
    let (_, r, _, chunk) = run(source);
    assert!(r.is_ok());
    let mut count = 0;
    while chunk.get_const(count).is_some() {
        count += 1;
    }
    assert!(chunk.len() > 0);
    for i in 0..chunk.len() {
        let op = chunk.get(i).unwrap();
        assert!(op.line() >= 1);
        assert!(op.line() <= 5);
        match op.kind() {
            OpCodeKind::Const { const_idx } => assert!(*const_idx < count),
            OpCodeKind::DefineGlobal { name_idx }
            | OpCodeKind::ReadGlobal { name_idx }
            | OpCodeKind::SetGlobal { name_idx } => assert!(*name_idx < count),
            _ => {}
        }
    }
    assert!(chunk.get(chunk.len()).is_none());
}

#[test]
fn instructions_carry_the_line_of_the_token_before_them() {
    let (_, r, _, chunk) = run("print\n1\n+\n2\n;");
    assert!(r.is_ok());
    let listed: Vec<(OpCodeKind, usize)> =
        (0..chunk.len()).map(|i| (*chunk.get(i).unwrap().kind(), chunk.get(i).unwrap().line())).collect();
    assert_eq!(
        listed,
        vec![
            (OpCodeKind::Const { const_idx: 0 }, 2),
            (OpCodeKind::Const { const_idx: 1 }, 4),
            (OpCodeKind::Add, 4),
            (OpCodeKind::Print, 5),
        ]
    );
}

#[test]
fn comparison_operators_compile_to_their_instructions() {
    let kinds = |source: &str| -> Vec<OpCodeKind> {
        let (_, r, _, chunk) = run(source);
        assert!(r.is_ok());
        (2..chunk.len() - 1).map(|i| *chunk.get(i).unwrap().kind()).collect()
    };
    assert_eq!(kinds("1 == 2;"), vec![OpCodeKind::Eq]);
    assert_eq!(kinds("1 != 2;"), vec![OpCodeKind::Eq, OpCodeKind::Not]);
    assert_eq!(kinds("1 > 2;"), vec![OpCodeKind::Gt]);
    assert_eq!(kinds("1 < 2;"), vec![OpCodeKind::Lt]);
    assert_eq!(kinds("1 >= 2;"), vec![OpCodeKind::Lt, OpCodeKind::Not]);
    assert_eq!(kinds("1 <= 2;"), vec![OpCodeKind::Gt, OpCodeKind::Not]);
    assert_eq!(kinds("1 + 2;"), vec![OpCodeKind::Add]);
    assert_eq!(kinds("1 - 2;"), vec![OpCodeKind::Sub]);
    assert_eq!(kinds("1 * 2;"), vec![OpCodeKind::Mul]);
    assert_eq!(kinds("1 / 2;"), vec![OpCodeKind::Div]);
}

#[test]
fn operators_bind_by_precedence_and_to_the_left() {
    assert_eq!(output("print 1 + 2 * 3;"), vec!["7"]);
    assert_eq!(output("print 10 - 4 - 3;"), vec!["3"]);
    assert_eq!(output("print 8 / 4 / 2;"), vec!["1"]);
    assert_eq!(output("print -2 * 3;"), vec!["-6"]);
    assert_eq!(output("print 1 + 2 < 4 == true;"), vec!["true"]);
    assert_eq!(output("print !true == false;"), vec!["true"]);
    assert_eq!(output("print --1;"), vec!["1"]);
    assert_eq!(output("print 1 / 0;"), vec!["inf"]);
    assert_eq!(output("print 0.5 + 0.25;"), vec!["0.75"]);
}

#[test]
fn ordering_of_what_are_no_numbers_is_false() {
    assert_eq!(output("print \"a\" < \"b\";"), vec!["false"]);
    assert_eq!(output("print true > false;"), vec!["false"]);
    assert_eq!(output("print null < null;"), vec!["false"]);
    assert_eq!(output("print 1 < \"2\";"), vec!["false"]);
    assert_eq!(output("print 2 > 1;"), vec!["true"]);
    assert_eq!(output("print 2 <= 2;"), vec!["true"]);
    assert_eq!(output("print 3 >= 4;"), vec!["false"]);
}

#[test]
fn truthiness() {
    assert_eq!(output("print !null;"), vec!["true"]);
    assert_eq!(output("print !false;"), vec!["true"]);
    assert_eq!(output("print !0;"), vec!["false"]);
    assert_eq!(output("print !\"\";"), vec!["false"]);
}

#[test]
fn parse_errors_name_the_line_the_place_and_the_message() {
    assert_eq!(parse_error("print ;"), (1, "';'".to_string(), "Expected expression".to_string()));
    assert_eq!(parse_error("print 1"), (1, "end".to_string(), "Expected ';'".to_string()));
    assert_eq!(parse_error("1 + 2"), (1, "end".to_string(), "Expected ';'".to_string()));
    assert_eq!(parse_error("print (1;"), (1, "';'".to_string(), "Expected ')'".to_string()));
    assert_eq!(
        parse_error("let a = 1;\n1 + a = 2;"),
        (2, "'='".to_string(), "Invalid assignment target".to_string())
    );
    assert_eq!(
        parse_error("let 1 = 2;"),
        (1, "'1'".to_string(), "Expected variable name".to_string())
    );
    assert_eq!(
        parse_error("let a = 1"),
        (1, "end".to_string(), "Expected ';' after variable declaration".to_string())
    );
    assert_eq!(
        parse_error("{ print 1;"),
        (1, "end".to_string(), "Expected '}' at the end of block".to_string())
    );
    assert_eq!(parse_error("print"), (1, "end".to_string(), "Expected expression".to_string()));
    assert_eq!(
        parse_error("print 1 @ 2;"),
        (1, "".to_string(), "Unexpected character".to_string())
    );
    assert_eq!(
        parse_error("print \"abc\n"),
        (2, "".to_string(), "Unclosed string literal".to_string())
    );
    assert_eq!(parse_error("}"), (1, "'}'".to_string(), "Expected expression".to_string()));
}

#[test]
fn a_number_without_a_value_is_a_parse_error() {
    let mut chunk = Chunk::new();
    let mut vm = VirtualMachine::new();
    let r = interpret("print 1 + 2;", vec![1f64.to_bits()], &mut chunk, &mut vm);
    match r {
        Err(InterpretError::Parsing(e)) => {
            assert_eq!(e.message, "Expected the value of the number");
            assert_eq!(e.report(), "[line 1] Error at '2': Expected the value of the number");
        }
        other => panic!("{:?}", other),
    }
}

#[test]
fn the_machine_goes_on_where_it_stopped_when_the_chunk_grows() {
    let mut chunk = Chunk::new();
    let mut vm = VirtualMachine::new();
    let mut out = Vec::new();
    assert!(run_line("let total = 1;", &mut chunk, &mut vm, &mut out).is_ok());
    let after_first = vm.ip();
    assert_eq!(after_first, chunk.len());
    assert!(run_line("total = total + 41;", &mut chunk, &mut vm, &mut out).is_ok());
    assert!(run_line("print total;", &mut chunk, &mut vm, &mut out).is_ok());
    assert_eq!(out, vec!["42"]);
    assert_eq!(vm.ip(), chunk.len());
    assert!(vm.ip() > after_first);
    assert_eq!(vm.depth(), 0);
}

#[test]
fn a_failed_line_reports_and_keeps_the_globals() {
    let mut chunk = Chunk::new();
    let mut vm = VirtualMachine::new();
    let mut out = Vec::new();
    assert!(run_line("let kept = 7;", &mut chunk, &mut vm, &mut out).is_ok());
    let r = run_line("print missing;", &mut chunk, &mut vm, &mut out);
    match r {
        Err(e) => assert_eq!(
            e.message(),
            "[line 1] Runtime error:\nUndefinedVariableError: name 'missing' is not defined"
        ),
        Ok(()) => panic!("no error"),
    }
    let r = run_line("print 1 +;", &mut chunk, &mut vm, &mut out);
    match r {
        Err(e) => assert_eq!(e.message(), "Error while parsing"),
        Ok(()) => panic!("no error"),
    }
    assert_eq!(vm.global("kept"), Some(Value::Float(7f64.to_bits())));
}

#[test]
fn printing_shows_each_kind_of_value() {
    assert_eq!(output("print true; print false; print null; print \"text\"; print 1.5;"),
        vec!["true", "false", "null", "text", "1.5"]);
    assert_eq!(output("print \"two\nlines\";"), vec!["two\nlines"]);
}

#[test]
fn comments_and_blank_lines_are_passed_over() {
    assert_eq!(output("// nothing\nprint 1; // one\n\n// end"), vec!["1"]);
    let (kind, line) = runtime_error("// first\n\nprint 1;\nprint nothing; // here");
    assert!(matches!(kind, RuntimeErrorKind::UndefinedVariable { .. }));
    assert_eq!(line, 4);
}

#[test]
fn the_number_literals_are_listed_in_order() {
    assert_eq!(
        number_literals("let a = 1.5; print a + 22 * (3);"),
        vec!["1.5".to_string(), "22".to_string(), "3".to_string()]
    );
    assert_eq!(number_literals("print \"1\"; // 2"), Vec::<String>::new());
    assert_eq!(number_literals("1 @ 2"), vec!["1".to_string()]);
    assert_eq!(number_literals(""), Vec::<String>::new());
}
