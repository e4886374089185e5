use kevs_vm::AssignTarget;
use kevs_vm::BinaryOperator;
use kevs_vm::Comparison;
use kevs_vm::ComparisonOperator;
use kevs_vm::CompileData;
use kevs_vm::CompileError;
use kevs_vm::Expression;
use kevs_vm::ExpressionTail;
use kevs_vm::Opcode;
use kevs_vm::Operand;
use kevs_vm::Statement;
use kevs_vm::VMState;
use kevs_vm::Value;
use kevs_vm::ValueNode;
use kevs_vm::VmError;
use kevs_vm::build_compile_data;
use kevs_vm::build_function;
use kevs_vm::build_print_string;
use kevs_vm::build_state;
use kevs_vm::compile_program;
use kevs_vm::execute_program;
use kevs_vm::register_syscalls;

fn num(text: &str) -> ValueNode {
    ValueNode::Number(text.to_string())
}

fn ident(name: &str) -> ValueNode {
    ValueNode::Ident(name.to_string())
}

fn string_lit(text: &str) -> ValueNode {
    ValueNode::StringLit(text.to_string())
}

fn leaf(v: ValueNode) -> Expression {
    Expression { first: Operand::Value(v), rest: Vec::new() }
}

fn chain(first: ValueNode, rest: Vec<(BinaryOperator, ValueNode)>) -> Expression {
    let mut tail = Vec::new();
    for (op, operand) in rest {
        tail.push(ExpressionTail { op, operand: Operand::Value(operand) });
    }
    Expression { first: Operand::Value(first), rest: tail }
}

fn assign(name: &str, expr: Expression) -> Statement {
    Statement::Assignment { target: AssignTarget::Ident(name.to_string()), expr }
}

fn call(name: &str, args: Vec<ValueNode>) -> Statement {
    Statement::FunctionCall { name: name.to_string(), args }
}

fn condition(lhs: ValueNode, op: ComparisonOperator, rhs: ValueNode) -> Comparison {
    Comparison { lhs: leaf(lhs), op, rhs: leaf(rhs) }
}

fn compile(program: &Vec<Statement>) -> (CompileData, Vec<Opcode>) {
    let mut data = build_compile_data(register_syscalls());
    let code = compile_program(program, &mut data).expect("program should compile");
    (data, code)
}

fn run(program: &Vec<Statement>) -> (CompileData, VMState, Result<(), VmError>) {
    let (data, code) = compile(program);
    let mut state = build_state(&data);
    let outcome = execute_program(&code, &mut state, 1_000_000);
    (data, state, outcome)
}

fn reg_of(data: &CompileData, name: &str) -> usize {
    for (bound, register) in &data.variable_lookup {
        if bound == name {
            return *register as usize;
        }
    }
    panic!("name {} is not bound", name);
}

fn output_text(state: &VMState) -> String {
    let mut s = String::new();
    for c in &state.output {
        s.push(*c);
    }
    s
}

#[test]
fn literal_arithmetic_precedence() {
    // x = 2 + 3 * 4; multiplication binds tighter than addition.
    let program = vec![assign(
        "x",
        chain(num("2"), vec![
            (BinaryOperator::Add, num("3")),
            (BinaryOperator::Multiply, num("4")),
        ]),
    )];
    let (data, state, outcome) = run(&program);
    assert!(outcome.is_ok());
    assert!(matches!(state.registers[reg_of(&data, "x")], Value::Number(14)));
}

#[test]
fn power_is_right_associative() {
    // x = 2 ^ 3 ^ 2; right associativity gives 2 ^ (3 ^ 2) = 512.
    let program = vec![assign(
        "x",
        chain(num("2"), vec![
            (BinaryOperator::Power, num("3")),
            (BinaryOperator::Power, num("2")),
        ]),
    )];
    let (data, state, outcome) = run(&program);
    assert!(outcome.is_ok());
    assert!(matches!(state.registers[reg_of(&data, "x")], Value::Number(512)));
}

#[test]
fn same_tier_is_left_associative() {
    // x = 10 - 3 - 2; left associativity gives (10 - 3) - 2 = 5.
    let program = vec![assign(
        "x",
        chain(num("10"), vec![
            (BinaryOperator::Subtract, num("3")),
            (BinaryOperator::Subtract, num("2")),
        ]),
    )];
    let (data, state, outcome) = run(&program);
    assert!(outcome.is_ok());
    assert!(matches!(state.registers[reg_of(&data, "x")], Value::Number(5)));
}

#[test]
fn parenthesized_subexpressions() {
    // x = (1 + 2) * (3 + 4) = 21, through nested expression operands.
    let lhs = chain(num("1"), vec![(BinaryOperator::Add, num("2"))]);
    let rhs = chain(num("3"), vec![(BinaryOperator::Add, num("4"))]);
    let program = vec![assign(
        "x",
        Expression {
            first: Operand::Subexpression(Box::new(lhs)),
            rest: vec![ExpressionTail {
                op: BinaryOperator::Multiply,
                operand: Operand::Subexpression(Box::new(rhs)),
            }],
        },
    )];
    let (data, state, outcome) = run(&program);
    assert!(outcome.is_ok());
    assert!(matches!(state.registers[reg_of(&data, "x")], Value::Number(21)));
}

#[test]
fn register_reuse_binds_three_distinct_registers() {
    // a = 1; b = 2; c = a + b; each name gets its own register and the
    // sum reads the values most recently stored in a's and b's homes.
    let program = vec![
        assign("a", leaf(num("1"))),
        assign("b", leaf(num("2"))),
        assign("c", chain(ident("a"), vec![(BinaryOperator::Add, ident("b"))])),
    ];
    let (data, state, outcome) = run(&program);
    assert!(outcome.is_ok());
    let ra = reg_of(&data, "a");
    let rb = reg_of(&data, "b");
    let rc = reg_of(&data, "c");
    assert_ne!(ra, rb);
    assert_ne!(ra, rc);
    assert_ne!(rb, rc);
    assert!(matches!(state.registers[ra], Value::Number(1)));
    assert!(matches!(state.registers[rb], Value::Number(2)));
    assert!(matches!(state.registers[rc], Value::Number(3)));
}

#[test]
fn while_loop_terminates_after_three_iterations() {
    // i = 0; while (i < 3) { i = i + 1; } leaves i = 3: the jump
    // offsets account for the interpreter's unconditional increment.
    let program = vec![
        assign("i", leaf(num("0"))),
        Statement::WhileLoop {
            condition: condition(ident("i"), ComparisonOperator::LessThan, num("3")),
            block: vec![assign("i", chain(ident("i"), vec![(BinaryOperator::Add, num("1"))]))],
        },
    ];
    let (data, state, outcome) = run(&program);
    assert!(outcome.is_ok());
    assert!(matches!(state.registers[reg_of(&data, "i")], Value::Number(3)));
}

#[test]
fn if_statement_runs_and_skips_body() {
    let program = vec![
        assign("x", leaf(num("1"))),
        Statement::IfStatement {
            condition: condition(ident("x"), ComparisonOperator::LessThan, num("2")),
            block: vec![assign("x", leaf(num("5")))],
        },
        Statement::IfStatement {
            condition: condition(ident("x"), ComparisonOperator::GreaterThan, num("100")),
            block: vec![assign("x", leaf(num("9")))],
        },
    ];
    let (data, state, outcome) = run(&program);
    assert!(outcome.is_ok());
    assert!(matches!(state.registers[reg_of(&data, "x")], Value::Number(5)));
}

#[test]
fn string_concatenation_prints_abcd() {
    // s = "ab" + "cd"; Println(s); must yield "abcd" and a newline.
    let program = vec![
        assign("s", chain(string_lit("ab"), vec![(BinaryOperator::Add, string_lit("cd"))])),
        call("Println", vec![ident("s")]),
    ];
    let (_data, state, outcome) = run(&program);
    assert!(outcome.is_ok());
    assert_eq!(output_text(&state), "abcd\n");
}

#[test]
fn print_has_no_trailing_newline() {
    let program = vec![
        assign("s", leaf(string_lit("ab"))),
        call("Print", vec![ident("s")]),
        call("Print", vec![ident("s")]),
    ];
    let (_data, state, outcome) = run(&program);
    assert!(outcome.is_ok());
    assert_eq!(output_text(&state), "abab");
}

#[test]
fn println_renders_numbers_in_decimal() {
    let program = vec![
        assign("x", chain(num("0"), vec![(BinaryOperator::Subtract, num("14"))])),
        call("Println", vec![ident("x")]),
    ];
    let (_data, state, outcome) = run(&program);
    assert!(outcome.is_ok());
    assert_eq!(output_text(&state), "-14\n");
}

#[test]
fn len_of_string_constant_is_its_length() {
    // n = 0; s = "abc"; Len(n, s); the builtin writes the count into
    // the first argument's register and the copy-out pass carries it
    // back to n.
    let program = vec![
        assign("n", leaf(num("0"))),
        assign("s", leaf(string_lit("abc"))),
        call("Len", vec![ident("n"), ident("s")]),
        call("Println", vec![ident("n")]),
    ];
    let (data, state, outcome) = run(&program);
    assert!(outcome.is_ok());
    assert!(matches!(state.registers[reg_of(&data, "n")], Value::Number(3)));
    assert_eq!(output_text(&state), "3\n");
}

#[test]
fn len_of_a_number_is_fatal() {
    let program = vec![
        assign("n", leaf(num("0"))),
        assign("x", leaf(num("5"))),
        call("Len", vec![ident("n"), ident("x")]),
    ];
    let (_data, _state, outcome) = run(&program);
    assert_eq!(outcome, Err(VmError::TypeMismatch));
}

#[test]
fn compiling_twice_is_byte_identical() {
    // Round trip: the same source from the same starting state yields
    // identical instruction sequences and identical bindings.
    let build = || {
        vec![
            assign("a", leaf(num("1"))),
            assign("s", chain(string_lit("ab"), vec![(BinaryOperator::Add, string_lit("cd"))])),
            Statement::WhileLoop {
                condition: condition(ident("a"), ComparisonOperator::LessThan, num("3")),
                block: vec![assign("a", chain(ident("a"), vec![(BinaryOperator::Add, num("1"))]))],
            },
            call("Println", vec![ident("s")]),
        ]
    };
    let (data1, code1) = compile(&build());
    let (data2, code2) = compile(&build());
    assert_eq!(code1, code2);
    assert_eq!(data1.first_unused_register, data2.first_unused_register);
    assert_eq!(data1.variable_lookup, data2.variable_lookup);
}

#[test]
fn array_index_at_length_is_fatal_never_growth() {
    // s = "ab"; s[2] = 9; writing at the current length must abort,
    // not grow the array.
    let program = vec![
        assign("s", leaf(string_lit("ab"))),
        Statement::Assignment {
            target: AssignTarget::ArrayElement {
                array: "s".to_string(),
                index: "2".to_string(),
            },
            expr: leaf(num("9")),
        },
    ];
    let (data, state, outcome) = run(&program);
    assert_eq!(outcome, Err(VmError::IndexOutOfBounds));
    match &state.registers[reg_of(&data, "s")] {
        Value::Array(items) => assert_eq!(items.len(), 2),
        _ => panic!("expected an array"),
    }
}

#[test]
fn array_index_beyond_length_is_fatal() {
    let program = vec![
        assign("s", leaf(string_lit("ab"))),
        Statement::Assignment {
            target: AssignTarget::ArrayElement {
                array: "s".to_string(),
                index: "5".to_string(),
            },
            expr: leaf(num("9")),
        },
    ];
    let (_data, _state, outcome) = run(&program);
    assert_eq!(outcome, Err(VmError::IndexOutOfBounds));
}

#[test]
fn in_range_element_assignment_and_read() {
    // s = "abc"; s[1] = 9; x = s[2]; Println(s);
    let program = vec![
        assign("s", leaf(string_lit("abc"))),
        Statement::Assignment {
            target: AssignTarget::ArrayElement {
                array: "s".to_string(),
                index: "1".to_string(),
            },
            expr: leaf(num("9")),
        },
        assign(
            "x",
            leaf(ValueNode::ArrayElement { array: "s".to_string(), index: "2".to_string() }),
        ),
        call("Println", vec![ident("s")]),
        call("Println", vec![ident("x")]),
    ];
    let (data, state, outcome) = run(&program);
    assert!(outcome.is_ok());
    assert!(matches!(state.registers[reg_of(&data, "x")], Value::Character('c')));
    assert_eq!(output_text(&state), "a9c\nc\n");
}

#[test]
fn unknown_variable_is_a_compile_error() {
    let program = vec![assign("x", leaf(ident("y")))];
    let mut data = build_compile_data(register_syscalls());
    let r = compile_program(&program, &mut data);
    assert_eq!(r, Err(CompileError::UnknownVariable("y".to_string())));
}

#[test]
fn unknown_function_is_a_compile_error() {
    let program = vec![assign("x", leaf(num("1"))), call("Frobnicate", vec![ident("x")])];
    let mut data = build_compile_data(register_syscalls());
    let r = compile_program(&program, &mut data);
    assert_eq!(r, Err(CompileError::UnknownFunction("Frobnicate".to_string())));
}

#[test]
fn oversized_literal_is_an_encoding_error() {
    let program = vec![assign("x", leaf(num("99999")))];
    let mut data = build_compile_data(register_syscalls());
    let r = compile_program(&program, &mut data);
    assert_eq!(r, Err(CompileError::InvalidLiteral("99999".to_string())));
}

#[test]
fn division_by_zero_is_fatal() {
    let program = vec![assign("x", chain(num("1"), vec![(BinaryOperator::Divide, num("0"))]))];
    let (_data, _state, outcome) = run(&program);
    assert_eq!(outcome, Err(VmError::DivisionByZero));
}

#[test]
fn arithmetic_on_a_string_is_fatal() {
    let program = vec![
        assign("s", leaf(string_lit("a"))),
        assign("y", chain(ident("s"), vec![(BinaryOperator::Subtract, num("1"))])),
    ];
    let (_data, _state, outcome) = run(&program);
    assert_eq!(outcome, Err(VmError::TypeMismatch));
}

#[test]
fn ordering_across_tags_is_fatal() {
    let program = vec![
        assign("s", leaf(string_lit("a"))),
        Statement::IfStatement {
            condition: condition(ident("s"), ComparisonOperator::LessThan, num("1")),
            block: vec![assign("s", leaf(num("0")))],
        },
    ];
    let (_data, _state, outcome) = run(&program);
    assert_eq!(outcome, Err(VmError::TypeMismatch));
}

#[test]
fn equality_across_tags_is_just_false() {
    // x = 1; s = "a"; if (x == s) { x = 9; } leaves x = 1.
    let program = vec![
        assign("x", leaf(num("1"))),
        assign("s", leaf(string_lit("a"))),
        Statement::IfStatement {
            condition: condition(ident("x"), ComparisonOperator::BoolEqual, ident("s")),
            block: vec![assign("x", leaf(num("9")))],
        },
    ];
    let (data, state, outcome) = run(&program);
    assert!(outcome.is_ok());
    assert!(matches!(state.registers[reg_of(&data, "x")], Value::Number(1)));
}

#[test]
fn negative_exponent_is_fatal() {
    let program = vec![assign("x", chain(num("2"), vec![(BinaryOperator::Power, num("-3"))]))];
    let (_data, _state, outcome) = run(&program);
    assert_eq!(outcome, Err(VmError::NegativeExponent));
}

#[test]
fn overflowing_power_is_fatal() {
    let program = vec![assign("x", chain(num("10"), vec![(BinaryOperator::Power, num("30"))]))];
    let (_data, _state, outcome) = run(&program);
    assert_eq!(outcome, Err(VmError::NumericOverflow));
}

#[test]
fn step_budget_stops_an_endless_loop() {
    // while (0 < 1) { x = 1; } never terminates; the budget does.
    let program = vec![
        assign("x", leaf(num("0"))),
        Statement::WhileLoop {
            condition: condition(num("0"), ComparisonOperator::LessThan, num("1")),
            block: vec![assign("x", leaf(num("1")))],
        },
    ];
    let (data, code) = compile(&program);
    let mut state = build_state(&data);
    let outcome = execute_program(&code, &mut state, 10_000);
    assert_eq!(outcome, Err(VmError::StepLimitExceeded));
}

#[test]
fn display_form_concatenates_array_elements() {
    let value = Value::Array(vec![
        Value::Character('o'),
        Value::Character('k'),
        Value::Number(3),
        Value::Boolean(true),
    ]);
    assert_eq!(build_print_string(&value), "ok3true");
}

#[test]
fn build_function_keeps_both_texts() {
    let f = build_function("a, b".to_string(), "{ a = b; }".to_string());
    assert_eq!(f.args, "a, b");
    assert_eq!(f.function, "{ a = b; }");
}

#[test]
fn number_appends_to_an_array() {
    // s = 1 + "ab"; with exactly one array operand the result is that
    // array's elements with the scalar appended.
    let program = vec![
        assign("s", chain(num("1"), vec![(BinaryOperator::Add, string_lit("ab"))])),
        call("Println", vec![ident("s")]),
    ];
    let (_data, state, outcome) = run(&program);
    assert!(outcome.is_ok());
    assert_eq!(output_text(&state), "ab1\n");
}

#[test]
fn while_body_may_bind_a_fresh_name() {
    // The loop jumps test the comparison's scratch register even when
    // the body advances the binding cursor, so the loop still runs and
    // terminates. (A name first bound inside the body shares that
    // scratch slot and is overwritten by each condition re-evaluation;
    // only the loop control is at stake here.)
    let program = vec![
        assign("i", leaf(num("0"))),
        Statement::WhileLoop {
            condition: condition(ident("i"), ComparisonOperator::LessThan, num("2")),
            block: vec![
                assign("t", leaf(num("7"))),
                assign("i", chain(ident("i"), vec![(BinaryOperator::Add, num("1"))])),
            ],
        },
    ];
    let (data, state, outcome) = run(&program);
    assert!(outcome.is_ok());
    assert!(matches!(state.registers[reg_of(&data, "i")], Value::Number(2)));
}

#[test]
fn if_body_may_bind_a_fresh_name() {
    let program = vec![
        assign("x", leaf(num("1"))),
        Statement::IfStatement {
            condition: condition(ident("x"), ComparisonOperator::LessThan, num("2")),
            block: vec![assign("y", leaf(num("5")))],
        },
    ];
    let (data, state, outcome) = run(&program);
    assert!(outcome.is_ok());
    assert!(matches!(state.registers[reg_of(&data, "y")], Value::Number(5)));
}
