use pijama::analysis::RecursionChecker;
use pijama::ast::{BinOp, Block, Literal, Name, Node, UnOp};
use pijama::lir;
use pijama::machine::{eval, Env, Fault, Machine, Value};
use pijama::mir;
use pijama::ty::{ty_check, Binding, Ty, TyError};
use pijama::{run_block, LangError, Located, Location};

fn at<T>(content: T, start: usize, end: usize) -> Located<T> {
    Located::new(content, Location::new(start, end))
}

fn num(n: i128, start: usize, end: usize) -> Located<Node<'static>> {
    at(Node::Literal(Literal::Number(n)), start, end)
}

fn boolean(b: bool, start: usize, end: usize) -> Located<Node<'static>> {
    at(Node::Literal(Literal::Bool(b)), start, end)
}

fn name(text: &'static str, start: usize, end: usize) -> Located<Node<'static>> {
    at(Node::Name(Name(text)), start, end)
}

fn binary(
    op: BinOp,
    left: Located<Node<'static>>,
    right: Located<Node<'static>>,
) -> Located<Node<'static>> {
    let loc = left.loc + right.loc;
    Located::new(Node::BinaryOp(op, Box::new(left), Box::new(right)), loc)
}

fn call(
    callee: &'static str,
    start: usize,
    args: Vec<Located<Node<'static>>>,
    end: usize,
) -> Located<Node<'static>> {
    at(Node::Call(at(Name(callee), start, start + callee.len()), args), start, end)
}

fn let_bind(
    bound: &'static str,
    start: usize,
    value: Located<Node<'static>>,
) -> Located<Node<'static>> {
    let end = value.loc.end;
    at(Node::LetBind(at(Name(bound), start, start + bound.len()), None, Box::new(value)), start, end)
}

fn param(text: &'static str, ty: Ty, start: usize, end: usize) -> Located<Binding<'static>> {
    at(Binding { name: Name(text), ty }, start, end)
}

fn arrow(from: Ty, to: Ty) -> Ty {
    Ty::Arrow(Box::new(from), Box::new(to))
}

fn program(nodes: Vec<Located<Node<'static>>>) -> Located<Block<'static>> {
    let end = nodes.last().map(|node| node.loc.end).unwrap_or(0);
    at(nodes, 0, end)
}

/// `fn rec fact(n: Int): Int do if n <= 1 do 1 else n * fact(n - 1) end end`
fn fact_def() -> Located<Node<'static>> {
    let condition = at(
        vec![binary(BinOp::Lte, name("n", 31, 32), num(1, 36, 37))],
        31,
        37,
    );
    let then_block = at(vec![num(1, 41, 42)], 41, 42);
    let recursive = call(
        "fact",
        52,
        vec![binary(BinOp::Sub, name("n", 57, 58), num(1, 61, 62))],
        63,
    );
    let else_block = at(vec![binary(BinOp::Mul, name("n", 48, 49), recursive)], 48, 63);
    let body = at(vec![at(Node::Cond(condition, then_block, else_block), 28, 67)], 28, 67);
    at(
        Node::FnRecDef(
            at(Name("fact"), 7, 11),
            vec![param("n", Ty::Int, 12, 18)],
            body,
            at(Ty::Int, 21, 24),
        ),
        0,
        71,
    )
}

fn evaluate(block: Located<Block<'static>>) -> Result<Value, Fault> {
    run_block(block).expect("the program is accepted")
}

#[test]
fn rebinding_before_use_is_not_recursion() {
    // f = 1
    // f
    let body = vec![let_bind("f", 0, num(1, 4, 5)), name("f", 6, 7)];
    assert!(!RecursionChecker::run(Name("f"), &body));
}

#[test]
fn call_of_the_target_is_recursion() {
    let body = vec![call("f", 0, vec![num(1, 2, 3)], 4)];
    assert!(RecursionChecker::run(Name("f"), &body));
}

#[test]
fn bare_reference_to_the_target_is_recursion() {
    let body = vec![name("f", 0, 1)];
    assert!(RecursionChecker::run(Name("f"), &body));
    assert!(!RecursionChecker::run(Name("g"), &body));
}

#[test]
fn inner_definition_of_the_same_name_shadows_the_target() {
    // fn f() do f() end
    let inner_body = at(vec![call("f", 10, vec![], 13)], 10, 13);
    let inner = at(Node::FnDef(Some(at(Name("f"), 3, 4)), vec![], inner_body, None), 0, 17);
    let body = vec![inner];
    assert!(!RecursionChecker::run(Name("f"), &body));
}

#[test]
fn inner_recursive_definition_of_the_same_name_shadows_the_target() {
    let inner_body = at(vec![call("f", 20, vec![], 23)], 20, 23);
    let inner = at(
        Node::FnRecDef(at(Name("f"), 7, 8), vec![], inner_body, at(Ty::Int, 12, 15)),
        0,
        27,
    );
    let body = vec![inner, name("f", 28, 29)];
    assert!(!RecursionChecker::run(Name("f"), &body));
}

#[test]
fn binding_inside_a_block_ends_with_the_block() {
    // if true do f = 1 else 2 end
    // f
    let condition = at(vec![boolean(true, 3, 7)], 3, 7);
    let then_block = at(vec![let_bind("f", 11, num(1, 15, 16))], 11, 16);
    let else_block = at(vec![num(2, 22, 23)], 22, 23);
    let cond = at(Node::Cond(condition, then_block, else_block), 0, 27);
    let body = vec![cond, name("f", 28, 29)];
    assert!(RecursionChecker::run(Name("f"), &body));
}

#[test]
fn use_inside_a_shadowed_block_does_not_count() {
    // f = 1
    // if f do f else f end
    let condition = at(vec![name("f", 9, 10)], 9, 10);
    let then_block = at(vec![name("f", 14, 15)], 14, 15);
    let else_block = at(vec![name("f", 21, 22)], 21, 22);
    let cond = at(Node::Cond(condition, then_block, else_block), 6, 26);
    let body = vec![let_bind("f", 0, num(1, 4, 5)), cond];
    assert!(!RecursionChecker::run(Name("f"), &body));
}

#[test]
fn use_before_the_rebinding_counts() {
    // f + 1
    // f = 2
    let body = vec![
        binary(BinOp::Add, name("f", 0, 1), num(1, 4, 5)),
        let_bind("f", 6, num(2, 10, 11)),
    ];
    assert!(RecursionChecker::run(Name("f"), &body));
}

#[test]
fn value_of_a_rebinding_is_shadowed_already() {
    // f = f
    let body = vec![let_bind("f", 0, name("f", 4, 5))];
    assert!(!RecursionChecker::run(Name("f"), &body));
}

#[test]
fn empty_body_is_not_recursive() {
    let body: Vec<Located<Node<'static>>> = vec![];
    assert!(!RecursionChecker::run(Name("f"), &body));
}

#[test]
fn addition_of_an_integer_and_a_boolean_is_a_mismatch() {
    // 1 + true
    let sum = binary(BinOp::Add, num(1, 0, 1), boolean(true, 4, 8));
    let term = mir::Term::from_ast(sum).expect("nothing to resolve");
    assert_eq!(
        ty_check(&term),
        Err(TyError::Unexpected { expected: Ty::Int, found: at(Ty::Bool, 4, 8) })
    );
}

#[test]
fn left_operand_is_held_to_its_type_first() {
    // true + unit
    let sum = binary(
        BinOp::Add,
        boolean(true, 0, 4),
        at(Node::Literal(Literal::Unit), 7, 11),
    );
    let term = mir::Term::from_ast(sum).expect("nothing to resolve");
    assert_eq!(
        ty_check(&term),
        Err(TyError::Unexpected { expected: Ty::Int, found: at(Ty::Bool, 0, 4) })
    );
}

#[test]
fn addition_of_two_integers_is_an_integer() {
    // 1 + 2
    let term = mir::Term::from_ast(binary(BinOp::Add, num(1, 0, 1), num(2, 4, 5)))
        .expect("nothing to resolve");
    assert_eq!(ty_check(&term), Ok(at(Ty::Int, 0, 5)));
    let lowered = lir::Term::from_mir(term);
    assert_eq!(
        Machine::default().evaluate(lowered),
        Ok(Value::Lit(Literal::Number(3)))
    );
}

#[test]
fn every_operator_has_the_type_of_its_kind() {
    let integer_ops = [
        BinOp::Add,
        BinOp::Sub,
        BinOp::Mul,
        BinOp::Div,
        BinOp::Rem,
        BinOp::BitAnd,
        BinOp::BitOr,
        BinOp::BitXor,
        BinOp::Shr,
        BinOp::Shl,
    ];
    for op in integer_ops {
        let term = mir::Term::from_ast(binary(op, num(6, 0, 1), num(3, 4, 5))).unwrap();
        assert_eq!(ty_check(&term), Ok(at(Ty::Int, 0, 5)));
    }
    for op in [BinOp::Lt, BinOp::Gt, BinOp::Lte, BinOp::Gte, BinOp::Eq, BinOp::Neq] {
        let term = mir::Term::from_ast(binary(op, num(6, 0, 1), num(3, 4, 5))).unwrap();
        assert_eq!(ty_check(&term), Ok(at(Ty::Bool, 0, 5)));
    }
    for op in [BinOp::And, BinOp::Or, BinOp::Eq, BinOp::Neq] {
        let term =
            mir::Term::from_ast(binary(op, boolean(true, 0, 4), boolean(false, 8, 13))).unwrap();
        assert_eq!(ty_check(&term), Ok(at(Ty::Bool, 0, 13)));
    }
    let term =
        mir::Term::from_ast(binary(BinOp::And, num(1, 0, 1), boolean(false, 5, 10))).unwrap();
    assert_eq!(
        ty_check(&term),
        Err(TyError::Unexpected { expected: Ty::Bool, found: at(Ty::Int, 0, 1) })
    );
}

#[test]
fn arithmetic_gives_exact_values() {
    let cases: Vec<(BinOp, i128, i128, Literal)> = vec![
        (BinOp::Add, 20, 22, Literal::Number(42)),
        (BinOp::Sub, 20, 22, Literal::Number(-2)),
        (BinOp::Mul, -6, 7, Literal::Number(-42)),
        (BinOp::Div, 7, 2, Literal::Number(3)),
        (BinOp::Div, -7, 2, Literal::Number(-3)),
        (BinOp::Div, 7, -2, Literal::Number(-3)),
        (BinOp::Div, -7, -2, Literal::Number(3)),
        (BinOp::Rem, 7, 2, Literal::Number(1)),
        (BinOp::Rem, -7, 2, Literal::Number(-1)),
        (BinOp::Rem, 7, -2, Literal::Number(1)),
        (BinOp::Rem, -7, -2, Literal::Number(-1)),
        (BinOp::BitAnd, 12, 10, Literal::Number(8)),
        (BinOp::BitOr, 12, 10, Literal::Number(14)),
        (BinOp::BitXor, 12, 10, Literal::Number(6)),
        (BinOp::Shl, 3, 4, Literal::Number(48)),
        (BinOp::Shr, 48, 4, Literal::Number(3)),
        (BinOp::Shr, -16, 2, Literal::Number(-4)),
        (BinOp::Eq, 3, 3, Literal::Bool(true)),
        (BinOp::Neq, 3, 3, Literal::Bool(false)),
        (BinOp::Lt, 2, 3, Literal::Bool(true)),
        (BinOp::Gt, 2, 3, Literal::Bool(false)),
        (BinOp::Lte, 3, 3, Literal::Bool(true)),
        (BinOp::Gte, 2, 3, Literal::Bool(false)),
    ];
    for (op, a, b, expected) in cases {
        let block = program(vec![binary(op, num(a, 0, 1), num(b, 4, 5))]);
        assert_eq!(evaluate(block), Ok(Value::Lit(expected)), "{:?} {} {}", op, a, b);
    }
}

#[test]
fn faults_of_integer_operations() {
    let cases: Vec<(BinOp, i128, i128, Fault)> = vec![
        (BinOp::Add, i128::MAX, 1, Fault::Overflow),
        (BinOp::Sub, i128::MIN, 1, Fault::Overflow),
        (BinOp::Mul, i128::MAX, 2, Fault::Overflow),
        (BinOp::Div, 1, 0, Fault::DivisionByZero),
        (BinOp::Rem, 1, 0, Fault::DivisionByZero),
        (BinOp::Div, i128::MIN, -1, Fault::Overflow),
        (BinOp::Rem, i128::MIN, -1, Fault::Overflow),
        (BinOp::Shl, 1, 128, Fault::Overflow),
        (BinOp::Shl, 1, -1, Fault::Overflow),
        (BinOp::Shr, 1, 128, Fault::Overflow),
    ];
    for (op, a, b, expected) in cases {
        let block = program(vec![binary(op, num(a, 0, 1), num(b, 4, 5))]);
        assert_eq!(evaluate(block), Err(expected), "{:?} {} {}", op, a, b);
    }
}

#[test]
fn unary_operators() {
    let negated = at(Node::UnaryOp(UnOp::Neg, Box::new(num(5, 1, 2))), 0, 2);
    assert_eq!(evaluate(program(vec![negated])), Ok(Value::Lit(Literal::Number(-5))));
    let inverted = at(Node::UnaryOp(UnOp::Not, Box::new(boolean(true, 1, 5))), 0, 5);
    assert_eq!(evaluate(program(vec![inverted])), Ok(Value::Lit(Literal::Bool(false))));
    let smallest = at(Node::UnaryOp(UnOp::Neg, Box::new(num(i128::MIN, 1, 2))), 0, 2);
    assert_eq!(evaluate(program(vec![smallest])), Err(Fault::Overflow));
    let wrong = at(Node::UnaryOp(UnOp::Not, Box::new(num(1, 1, 2))), 0, 2);
    assert_eq!(
        run_block(program(vec![wrong])),
        Err(LangError::Ty(TyError::Unexpected {
            expected: Ty::Bool,
            found: at(Ty::Int, 1, 2)
        }))
    );
}

#[test]
fn and_does_not_evaluate_its_right_operand_when_the_left_is_false() {
    // false && (1 / 0 == 0)
    let division = binary(BinOp::Div, num(1, 10, 11), num(0, 14, 15));
    let right = binary(BinOp::Eq, division, num(0, 19, 20));
    let block = program(vec![binary(BinOp::And, boolean(false, 0, 5), right)]);
    assert_eq!(evaluate(block), Ok(Value::Lit(Literal::Bool(false))));
}

#[test]
fn or_does_not_evaluate_its_right_operand_when_the_left_is_true() {
    let division = binary(BinOp::Div, num(1, 10, 11), num(0, 14, 15));
    let right = binary(BinOp::Eq, division, num(0, 19, 20));
    let block = program(vec![binary(BinOp::Or, boolean(true, 0, 4), right)]);
    assert_eq!(evaluate(block), Ok(Value::Lit(Literal::Bool(true))));
}

#[test]
fn and_evaluates_its_right_operand_when_the_left_is_true() {
    let division = binary(BinOp::Div, num(1, 10, 11), num(0, 14, 15));
    let right = binary(BinOp::Eq, division, num(0, 19, 20));
    let block = program(vec![binary(BinOp::And, boolean(true, 0, 4), right)]);
    assert_eq!(evaluate(block), Err(Fault::DivisionByZero));
}

#[test]
fn short_circuit_in_the_machine_skips_even_an_ill_formed_operand() {
    // The right operand refers to a binder that does not exist.
    let term = lir::Term::BinaryOp(
        BinOp::And,
        Box::new(lir::Term::Lit(Literal::Bool(false))),
        Box::new(lir::Term::Var(7)),
    );
    assert_eq!(Machine::default().evaluate(term), Ok(Value::Lit(Literal::Bool(false))));
}

#[test]
fn factorial_of_five() {
    // fn rec fact(n: Int): Int do if n <= 1 do 1 else n * fact(n - 1) end end
    // fact(5)
    let block = program(vec![fact_def(), call("fact", 72, vec![num(5, 77, 78)], 79)]);
    let term = mir::Term::from_block(block).expect("every name is bound");
    assert_eq!(ty_check(&term).map(|ty| ty.content), Ok(Ty::Int));
    let lowered = lir::Term::from_mir(term);
    assert_eq!(
        Machine::default().evaluate(lowered),
        Ok(Value::Lit(Literal::Number(120)))
    );
}

#[test]
fn recursive_definition_alone_has_its_declared_type() {
    let term = mir::Term::from_block(program(vec![fact_def()])).expect("every name is bound");
    assert_eq!(ty_check(&term).map(|ty| ty.content), Ok(arrow(Ty::Int, Ty::Int)));
    match &term.content {
        mir::Term::Fn { is_rec, ty, .. } => {
            assert!(*is_rec);
            assert_eq!(*ty, Some(arrow(Ty::Int, Ty::Int)));
        }
        other => panic!("not a function: {:?}", other),
    }
}

#[test]
fn evaluation_is_repeatable() {
    let first = evaluate(program(vec![
        fact_def(),
        call("fact", 72, vec![num(10, 77, 79)], 80),
    ]));
    let second = evaluate(program(vec![
        fact_def(),
        call("fact", 72, vec![num(10, 77, 79)], 80),
    ]));
    assert_eq!(first, Ok(Value::Lit(Literal::Number(3628800))));
    assert_eq!(first, second);
}

#[test]
fn endless_recursion_runs_into_the_depth_limit() {
    // fn rec loop(n: Int): Int do loop(n) end
    // loop(0)
    let body = at(vec![call("loop", 30, vec![name("n", 35, 36)], 37)], 30, 37);
    let def = at(
        Node::FnRecDef(
            at(Name("loop"), 7, 11),
            vec![param("n", Ty::Int, 12, 18)],
            body,
            at(Ty::Int, 21, 24),
        ),
        0,
        41,
    );
    let block = program(vec![def, call("loop", 42, vec![num(0, 47, 48)], 49)]);
    assert_eq!(evaluate(block), Err(Fault::DepthLimit));
}

#[test]
fn depth_limit_counts_nested_calls() {
    let block = program(vec![fact_def(), call("fact", 72, vec![num(5, 77, 78)], 79)]);
    let term = mir::Term::from_block(block).unwrap();
    let lowered = lir::Term::from_mir(term);
    // Five calls nest inside one another: the machine needs a depth of five.
    assert_eq!(eval(&lowered, &Env::Empty, 4), Err(Fault::DepthLimit));
    assert_eq!(eval(&lowered, &Env::Empty, 5), Ok(Value::Lit(Literal::Number(120))));
    assert_eq!(Machine::new(4).evaluate(lowered.clone()), Err(Fault::DepthLimit));
    assert_eq!(
        Machine::new(5).evaluate(lowered),
        Ok(Value::Lit(Literal::Number(120)))
    );
}

#[test]
fn calling_what_is_no_function_is_rejected_at_the_callee() {
    // x = 1
    // x(1 + true)
    let wrong_arg = binary(BinOp::Add, num(1, 8, 9), boolean(true, 12, 16));
    let block = program(vec![
        let_bind("x", 0, num(1, 4, 5)),
        call("x", 6, vec![wrong_arg], 17),
    ]);
    assert_eq!(
        run_block(block),
        Err(LangError::Ty(TyError::ExpectedFn(at(Ty::Int, 6, 7))))
    );
}

#[test]
fn too_many_arguments_are_rejected_where_the_function_ends() {
    // fn id(x: Int): Int do x end
    // id(1, 2)
    let def = at(
        Node::FnDef(
            Some(at(Name("id"), 3, 5)),
            vec![param("x", Ty::Int, 6, 12)],
            at(vec![name("x", 22, 23)], 22, 23),
            Some(at(Ty::Int, 15, 18)),
        ),
        0,
        27,
    );
    let block = program(vec![def, call("id", 28, vec![num(1, 31, 32), num(2, 34, 35)], 36)]);
    assert_eq!(
        run_block(block),
        Err(LangError::Ty(TyError::ExpectedFn(at(Ty::Int, 28, 32))))
    );
}

#[test]
fn wrong_argument_type_is_a_mismatch_at_the_argument() {
    let def = at(
        Node::FnDef(
            Some(at(Name("id"), 3, 5)),
            vec![param("x", Ty::Int, 6, 12)],
            at(vec![name("x", 22, 23)], 22, 23),
            Some(at(Ty::Int, 15, 18)),
        ),
        0,
        27,
    );
    let block = program(vec![def, call("id", 28, vec![boolean(true, 31, 35)], 36)]);
    assert_eq!(
        run_block(block),
        Err(LangError::Ty(TyError::Unexpected {
            expected: Ty::Int,
            found: at(Ty::Bool, 31, 35)
        }))
    );
}

#[test]
fn wrong_return_type_is_a_mismatch_at_the_body() {
    // fn f(x: Int): Bool do x end
    let def = at(
        Node::FnDef(
            Some(at(Name("f"), 3, 4)),
            vec![param("x", Ty::Int, 5, 11)],
            at(vec![name("x", 22, 23)], 22, 23),
            Some(at(Ty::Bool, 14, 18)),
        ),
        0,
        27,
    );
    assert_eq!(
        run_block(program(vec![def])),
        Err(LangError::Ty(TyError::Unexpected {
            expected: Ty::Bool,
            found: at(Ty::Int, 22, 23)
        }))
    );
}

#[test]
fn function_from_integers_to_integers() {
    // fn (x: Int) do x + 1 end
    let body = at(
        vec![binary(BinOp::Add, name("x", 15, 16), num(1, 19, 20))],
        15,
        20,
    );
    let def = at(Node::FnDef(None, vec![param("x", Ty::Int, 4, 10)], body, None), 0, 24);
    let term = mir::Term::from_ast(def).unwrap();
    assert_eq!(ty_check(&term), Ok(at(arrow(Ty::Int, Ty::Int), 0, 24)));
}

#[test]
fn function_of_two_parameters_is_curried() {
    // fn add(x: Int, y: Int): Int do x + y end
    // add(1)(2) is written add(1, 2)
    let body = at(
        vec![binary(BinOp::Add, name("x", 32, 33), name("y", 36, 37))],
        32,
        37,
    );
    let def = at(
        Node::FnDef(
            Some(at(Name("add"), 3, 6)),
            vec![param("x", Ty::Int, 7, 13), param("y", Ty::Int, 15, 21)],
            body,
            Some(at(Ty::Int, 24, 27)),
        ),
        0,
        41,
    );
    let whole = program(vec![def, call("add", 42, vec![num(40, 46, 48), num(2, 50, 51)], 52)]);
    assert_eq!(evaluate(whole), Ok(Value::Lit(Literal::Number(42))));
}

#[test]
fn partial_application_gives_a_function() {
    let body = at(
        vec![binary(BinOp::Sub, name("x", 32, 33), name("y", 36, 37))],
        32,
        37,
    );
    let def = at(
        Node::FnDef(
            Some(at(Name("sub"), 3, 6)),
            vec![param("x", Ty::Int, 7, 13), param("y", Ty::Int, 15, 21)],
            body,
            Some(at(Ty::Int, 24, 27)),
        ),
        0,
        41,
    );
    // sub
    // dec = sub(10)
    // dec(3)
    let whole = program(vec![
        def,
        let_bind("dec", 42, call("sub", 48, vec![num(10, 52, 54)], 55)),
        call("dec", 56, vec![num(3, 60, 61)], 62),
    ]);
    let term = mir::Term::from_block(whole).unwrap();
    assert_eq!(ty_check(&term).map(|ty| ty.content), Ok(Ty::Int));
    assert_eq!(
        Machine::default().evaluate(lir::Term::from_mir(term)),
        Ok(Value::Lit(Literal::Number(7)))
    );
}

#[test]
fn unbound_name_is_reported_with_its_place() {
    let block = program(vec![binary(BinOp::Add, num(1, 0, 1), name("y", 4, 5))]);
    assert_eq!(
        run_block(block),
        Err(LangError::Ty(TyError::Unbound(at(Name("y"), 4, 5))))
    );
}

#[test]
fn name_bound_in_a_block_is_unbound_after_it() {
    // if true do x = 1 else 2 end
    // x
    let condition = at(vec![boolean(true, 3, 7)], 3, 7);
    let then_block = at(vec![let_bind("x", 11, num(1, 15, 16))], 11, 16);
    let else_block = at(vec![num(2, 22, 23)], 22, 23);
    let cond = at(Node::Cond(condition, then_block, else_block), 0, 27);
    let block = program(vec![cond, name("x", 28, 29)]);
    assert_eq!(
        mir::Term::from_block(block),
        Err(TyError::Unbound(at(Name("x"), 28, 29)))
    );
}

#[test]
fn inner_binding_shadows_the_outer_one_until_its_block_ends() {
    // x = 1
    // if true do x = true  x else false end
    // x
    let condition = at(vec![boolean(true, 9, 13)], 9, 13);
    let then_block = at(
        vec![let_bind("x", 17, boolean(true, 21, 25)), name("x", 27, 28)],
        17,
        28,
    );
    let else_block = at(vec![boolean(false, 34, 39)], 34, 39);
    let cond = at(Node::Cond(condition, then_block, else_block), 6, 43);
    let block = program(vec![let_bind("x", 0, num(1, 4, 5)), cond, name("x", 44, 45)]);
    let term = mir::Term::from_block(block).unwrap();
    assert_eq!(ty_check(&term), Ok(at(Ty::Int, 44, 45)));
    assert_eq!(
        Machine::default().evaluate(lir::Term::from_mir(term)),
        Ok(Value::Lit(Literal::Number(1)))
    );
}

#[test]
fn references_count_the_bindings_in_between() {
    // x = 1
    // y = 2
    // x
    let block = program(vec![
        let_bind("x", 0, num(1, 4, 5)),
        let_bind("y", 6, num(2, 10, 11)),
        name("x", 12, 13),
    ]);
    let term = mir::Term::from_block(block).unwrap();
    let mut inner = &term;
    for _ in 0..2 {
        inner = match &inner.content {
            mir::Term::Let(_, _, _, body) => body,
            other => panic!("not a binding: {:?}", other),
        };
    }
    assert_eq!(inner.content, mir::Term::Var(Name("x"), 1));
}

#[test]
fn comparing_functions_for_equality_is_rejected() {
    // fn f(x: Int): Int do x end
    // f == f
    let def = at(
        Node::FnDef(
            Some(at(Name("f"), 3, 4)),
            vec![param("x", Ty::Int, 5, 11)],
            at(vec![name("x", 21, 22)], 21, 22),
            Some(at(Ty::Int, 14, 17)),
        ),
        0,
        26,
    );
    let block = program(vec![def, binary(BinOp::Eq, name("f", 27, 28), name("f", 32, 33))]);
    assert_eq!(
        run_block(block),
        Err(LangError::Ty(TyError::ExpectedBasic(at(arrow(Ty::Int, Ty::Int), 27, 28))))
    );
}

#[test]
fn function_without_return_type_and_without_body_has_no_type() {
    // fn f() do end
    let def = at(Node::FnDef(Some(at(Name("f"), 3, 4)), vec![], at(vec![], 9, 9), None), 0, 13);
    assert_eq!(
        run_block(program(vec![def])),
        Err(LangError::Ty(TyError::Missing(at((), 9, 9))))
    );
}

#[test]
fn recursive_term_without_declared_type_has_no_type() {
    let lambda = at(mir::Term::Lit(Literal::Unit), 0, 1);
    let term = at(
        mir::Term::Fn { name: None, is_rec: true, ty: None, lambda: Box::new(lambda) },
        0,
        1,
    );
    assert_eq!(ty_check(&term), Err(TyError::Missing(at((), 0, 1))));
}

#[test]
fn annotated_binding_is_held_to_its_annotation() {
    // x: Bool = 1
    let bind = at(
        Node::LetBind(at(Name("x"), 0, 1), Some(at(Ty::Bool, 3, 7)), Box::new(num(1, 10, 11))),
        0,
        11,
    );
    assert_eq!(
        run_block(program(vec![bind])),
        Err(LangError::Ty(TyError::Unexpected {
            expected: Ty::Bool,
            found: at(Ty::Int, 10, 11)
        }))
    );
}

#[test]
fn condition_must_be_a_boolean() {
    let condition = at(vec![num(1, 3, 4)], 3, 4);
    let then_block = at(vec![num(1, 8, 9)], 8, 9);
    let else_block = at(vec![num(2, 15, 16)], 15, 16);
    let cond = at(Node::Cond(condition, then_block, else_block), 0, 20);
    assert_eq!(
        run_block(program(vec![cond])),
        Err(LangError::Ty(TyError::Unexpected {
            expected: Ty::Bool,
            found: at(Ty::Int, 3, 4)
        }))
    );
}

#[test]
fn branches_must_agree() {
    let condition = at(vec![boolean(true, 3, 7)], 3, 7);
    let then_block = at(vec![num(1, 11, 12)], 11, 12);
    let else_block = at(vec![boolean(false, 18, 23)], 18, 23);
    let cond = at(Node::Cond(condition, then_block, else_block), 0, 27);
    assert_eq!(
        run_block(program(vec![cond])),
        Err(LangError::Ty(TyError::Unexpected {
            expected: Ty::Int,
            found: at(Ty::Bool, 18, 23)
        }))
    );
}

#[test]
fn conditional_takes_one_branch() {
    let condition = at(
        vec![binary(BinOp::Lt, num(1, 3, 4), num(2, 7, 8))],
        3,
        8,
    );
    let then_block = at(vec![num(10, 12, 14)], 12, 14);
    let else_block = at(
        vec![binary(BinOp::Div, num(1, 20, 21), num(0, 24, 25))],
        20,
        25,
    );
    let cond = at(Node::Cond(condition, then_block, else_block), 0, 29);
    assert_eq!(evaluate(program(vec![cond])), Ok(Value::Lit(Literal::Number(10))));
}

#[test]
fn empty_program_is_unit() {
    assert_eq!(evaluate(program(vec![])), Ok(Value::Lit(Literal::Unit)));
}

#[test]
fn binding_as_last_statement_is_unit() {
    let block = program(vec![let_bind("x", 0, num(1, 4, 5))]);
    assert_eq!(evaluate(block), Ok(Value::Lit(Literal::Unit)));
}

#[test]
fn machine_faults_on_ill_formed_terms() {
    let machine = Machine::default();
    assert_eq!(machine.evaluate(lir::Term::Var(0)), Err(Fault::Unbound));
    let applied = lir::Term::App(
        Box::new(lir::Term::Lit(Literal::Number(1))),
        Box::new(lir::Term::Var(0)),
    );
    // The callee is looked at before the argument is evaluated.
    assert_eq!(machine.evaluate(applied), Err(Fault::NotAFunction));
    let wrong = lir::Term::UnaryOp(UnOp::Neg, Box::new(lir::Term::Lit(Literal::Bool(true))));
    assert_eq!(machine.evaluate(wrong), Err(Fault::BadOperand));
    let cond = lir::Term::Cond(
        Box::new(lir::Term::Lit(Literal::Unit)),
        Box::new(lir::Term::Lit(Literal::Unit)),
        Box::new(lir::Term::Lit(Literal::Unit)),
    );
    assert_eq!(machine.evaluate(cond), Err(Fault::BadOperand));
    assert!(Fault::Unbound.is_stuck());
    assert!(Fault::NotAFunction.is_stuck());
    assert!(Fault::BadOperand.is_stuck());
    assert!(!Fault::Overflow.is_stuck());
    assert!(!Fault::DivisionByZero.is_stuck());
    assert!(!Fault::DepthLimit.is_stuck());
}

#[test]
fn closure_keeps_the_environment_it_was_made_in() {
    // x = 1
    // fn f(y: Int): Int do x + y end
    // x = 100
    // f(2)
    let body = at(
        vec![binary(BinOp::Add, name("x", 28, 29), name("y", 32, 33))],
        28,
        33,
    );
    let def = at(
        Node::FnDef(
            Some(at(Name("f"), 9, 10)),
            vec![param("y", Ty::Int, 11, 17)],
            body,
            Some(at(Ty::Int, 20, 23)),
        ),
        6,
        37,
    );
    let block = program(vec![
        let_bind("x", 0, num(1, 4, 5)),
        def,
        let_bind("x", 38, num(100, 42, 45)),
        call("f", 46, vec![num(2, 48, 49)], 50),
    ]);
    assert_eq!(evaluate(block), Ok(Value::Lit(Literal::Number(3))));
}

#[test]
fn locations_join_to_the_enclosing_span() {
    let joined = Location::new(4, 9) + Location::new(1, 6);
    assert_eq!(joined, Location::new(1, 9));
    assert_eq!(Location::new(2, 3) + Location::new(2, 3), Location::new(2, 3));
    assert_eq!(Location::new(7, 8).with_content(5u8), Located::new(5u8, Location::new(7, 8)));
}

#[test]
fn errors_point_at_one_place() {
    assert_eq!(
        TyError::Unexpected { expected: Ty::Int, found: at(Ty::Bool, 4, 8) }.loc(),
        Location::new(4, 8)
    );
    assert_eq!(TyError::Unbound(at(Name("x"), 1, 2)).loc(), Location::new(1, 2));
    assert_eq!(TyError::ExpectedFn(at(Ty::Int, 2, 3)).loc(), Location::new(2, 3));
    assert_eq!(TyError::ExpectedBasic(at(Ty::Int, 3, 4)).loc(), Location::new(3, 4));
    assert_eq!(TyError::Missing(at((), 5, 6)).loc(), Location::new(5, 6));
    assert_eq!(
        LangError::from(TyError::Missing(at((), 5, 6))).loc(),
        Location::new(5, 6)
    );
}

#[test]
fn literals_from_plain_values() {
    assert_eq!(Literal::from(7i128), Literal::Number(7));
    assert_eq!(Literal::from(true), Literal::Bool(true));
    let converted: Literal = 9i128.into();
    assert_eq!(converted, Literal::Number(9));
    assert_eq!(Literal::Unit.ty(), Ty::Unit);
}

#[test]
fn operators_are_written_as_in_source_text() {
    let symbols: Vec<(BinOp, &str)> = vec![
        (BinOp::Add, "+"),
        (BinOp::Sub, "-"),
        (BinOp::Mul, "*"),
        (BinOp::Div, "/"),
        (BinOp::Rem, "%"),
        (BinOp::And, "&&"),
        (BinOp::Or, "||"),
        (BinOp::BitAnd, "&"),
        (BinOp::BitOr, "|"),
        (BinOp::BitXor, "^"),
        (BinOp::Shr, ">>"),
        (BinOp::Shl, "<<"),
        (BinOp::Eq, "=="),
        (BinOp::Neq, "!="),
        (BinOp::Lt, "<"),
        (BinOp::Gt, ">"),
        (BinOp::Lte, "<="),
        (BinOp::Gte, ">="),
    ];
    for (op, symbol) in symbols {
        assert_eq!(op.symbol(), symbol);
    }
    assert_eq!(UnOp::Neg.symbol(), "-");
    assert_eq!(UnOp::Not.symbol(), "!");
}

#[test]
fn names_are_equal_when_their_texts_are() {
    let text = String::from("fact");
    assert!(Name("fact").same(&Name(text.as_str())));
    assert!(!Name("fact").same(&Name("fac")));
    assert!(!Name("fact").same(&Name("facu")));
    assert_eq!(Name("fact").to_text(), "fact");
}

#[test]
fn types_are_compared_deeply() {
    let a = arrow(arrow(Ty::Int, Ty::Bool), Ty::Unit);
    let b = arrow(arrow(Ty::Int, Ty::Bool), Ty::Unit);
    let c = arrow(arrow(Ty::Int, Ty::Int), Ty::Unit);
    assert!(a.equals(&b));
    assert!(!a.equals(&c));
    assert_eq!(a.clone(), b);
    assert!(!a.is_basic());
    assert!(Ty::Unit.is_basic());
}

#[test]
fn literals_are_shown_as_they_are_written() {
    assert_eq!(Literal::Bool(true).to_text(), "true");
    assert_eq!(Literal::Bool(false).to_text(), "false");
    assert_eq!(Literal::Unit.to_text(), "unit");
    assert_eq!(Literal::Number(0).to_text(), "0");
    assert_eq!(Literal::Number(7).to_text(), "7");
    assert_eq!(Literal::Number(10).to_text(), "10");
    assert_eq!(Literal::Number(1234567890).to_text(), "1234567890");
    assert_eq!(Literal::Number(-42).to_text(), "-42");
    assert_eq!(Literal::Number(i128::MAX).to_text(), i128::MAX.to_string());
    assert_eq!(Literal::Number(i128::MIN).to_text(), i128::MIN.to_string());
    assert_eq!(Literal::Number(i128::MIN + 1).to_text(), (i128::MIN + 1).to_string());
}

#[test]
fn values_are_shown() {
    assert_eq!(Value::Lit(Literal::Number(120)).to_text(), "120");
    let closure = Value::Closure(
        Ty::Int,
        Box::new(lir::Term::Var(0)),
        Box::new(Env::Empty),
    );
    assert_eq!(closure.to_text(), "<function>");
    assert_eq!(closure.clone(), closure);
}

#[test]
fn function_type_as_parameter_stands_in_brackets() {
    assert_eq!(Ty::Bool.to_text(), "Bool");
    assert_eq!(Ty::Int.to_text(), "Int");
    assert_eq!(Ty::Unit.to_text(), "Unit");
    assert_eq!(arrow(Ty::Int, Ty::Bool).to_text(), "Int -> Bool");
    assert_eq!(
        arrow(Ty::Int, arrow(Ty::Int, Ty::Bool)).to_text(),
        "Int -> Int -> Bool"
    );
    assert_eq!(
        arrow(arrow(Ty::Int, Ty::Int), Ty::Bool).to_text(),
        "(Int -> Int) -> Bool"
    );
    assert_eq!(
        arrow(arrow(arrow(Ty::Unit, Ty::Int), Ty::Int), arrow(Ty::Bool, Ty::Bool)).to_text(),
        "((Unit -> Int) -> Int) -> Bool -> Bool"
    );
}

#[test]
fn typing_errors_in_words() {
    assert_eq!(
        TyError::Unexpected { expected: Ty::Int, found: at(Ty::Bool, 4, 8) }.message(),
        "Unexpected type: expected Int, found Bool"
    );
    assert_eq!(
        TyError::Unbound(at(Name("y"), 4, 5)).message(),
        "Name y is not bounded"
    );
    assert_eq!(
        TyError::ExpectedFn(at(Ty::Int, 0, 1)).message(),
        "Unexpected type: expected function, found Int"
    );
    assert_eq!(
        TyError::ExpectedBasic(at(arrow(Ty::Int, Ty::Int), 0, 1)).message(),
        "Unexpected type: expected a basic type, found Int -> Int"
    );
    assert_eq!(
        TyError::Missing(at((), 0, 1)).message(),
        "Missing type: type cannot be inferred"
    );
    assert_eq!(
        LangError::Ty(TyError::Missing(at((), 0, 1))).message(),
        "Missing type: type cannot be inferred"
    );
}

#[test]
fn faults_in_words() {
    assert_eq!(Fault::DivisionByZero.message(), "Division by zero");
    assert_eq!(Fault::Overflow.message(), "Integer overflow");
    assert_eq!(Fault::DepthLimit.message(), "Calls nested too deep");
    assert_eq!(Fault::Unbound.message(), "Reference to nothing");
    assert_eq!(Fault::NotAFunction.message(), "Call of what is no function");
    assert_eq!(Fault::BadOperand.message(), "Operand of the wrong kind");
}

#[test]
fn line_and_column_of_a_location() {
    let text = "a = 1\nbc = 2\n\nd";
    assert_eq!(
        Location::new(0, 1).line_column(text),
        pijama::LineColumn { line: 1, column: 1 }
    );
    assert_eq!(
        Location::new(4, 5).line_column(text),
        pijama::LineColumn { line: 1, column: 5 }
    );
    assert_eq!(
        Location::new(6, 8).line_column(text),
        pijama::LineColumn { line: 2, column: 1 }
    );
    assert_eq!(
        Location::new(11, 12).line_column(text),
        pijama::LineColumn { line: 2, column: 6 }
    );
    assert_eq!(
        Location::new(13, 13).line_column(text),
        pijama::LineColumn { line: 3, column: 1 }
    );
    assert_eq!(
        Location::new(14, 15).line_column(text),
        pijama::LineColumn { line: 4, column: 1 }
    );
    // A location behind the text counts as the end of the text.
    assert_eq!(
        Location::new(99, 100).line_column(text),
        pijama::LineColumn { line: 4, column: 2 }
    );
    assert_eq!(
        Location::new(0, 0).line_column(""),
        pijama::LineColumn { line: 1, column: 1 }
    );
}

#[test]
fn lowered_program_has_no_unbound_reference_left() {
    // Every name error comes from the lowering; the type checker finds none.
    let block = program(vec![
        let_bind("x", 0, num(1, 4, 5)),
        binary(BinOp::Add, name("x", 6, 7), name("x", 10, 11)),
    ]);
    let term = mir::Term::from_block(block).unwrap();
    assert_eq!(ty_check(&term), Ok(at(Ty::Int, 6, 11)));
    // A term that is put together by hand may point outside of itself.
    let open = at(mir::Term::Var(Name("ghost"), 3), 2, 7);
    assert_eq!(ty_check(&open), Err(TyError::Unbound(at(Name("ghost"), 2, 7))));
}

/// The shape of a small mid-level term.
#[derive(Clone)]
enum Shape {
    Number,
    Truth,
    Nothing,
    Var(usize),
    Neg(Box<Shape>),
    Not(Box<Shape>),
    Binary(BinOp, Box<Shape>, Box<Shape>),
    App(Box<Shape>, Box<Shape>),
    Abs(Ty, Box<Shape>),
    Let(Box<Shape>, Box<Shape>),
    Cond(Box<Shape>, Box<Shape>, Box<Shape>),
    Rec(Box<Shape>),
}

fn term_of(shape: &Shape) -> Located<mir::Term<'static>> {
    let term = |shape: &Shape| Box::new(term_of(shape));
    let content = match shape {
        Shape::Number => mir::Term::Lit(Literal::Number(2)),
        Shape::Truth => mir::Term::Lit(Literal::Bool(true)),
        Shape::Nothing => mir::Term::Lit(Literal::Unit),
        Shape::Var(index) => mir::Term::Var(Name("x"), *index),
        Shape::Neg(operand) => mir::Term::UnaryOp(UnOp::Neg, term(operand)),
        Shape::Not(operand) => mir::Term::UnaryOp(UnOp::Not, term(operand)),
        Shape::Binary(op, left, right) => mir::Term::BinaryOp(*op, term(left), term(right)),
        Shape::App(callee, arg) => mir::Term::App(term(callee), term(arg)),
        Shape::Abs(ty, body) => {
            mir::Term::Abs(at(Binding { name: Name("x"), ty: ty.clone() }, 0, 1), term(body))
        }
        Shape::Let(value, body) => mir::Term::Let(at(Name("x"), 0, 1), None, term(value), term(body)),
        Shape::Cond(condition, then_shape, else_shape) => {
            mir::Term::Cond(term(condition), term(then_shape), term(else_shape))
        }
        Shape::Rec(lambda) => mir::Term::Fn {
            name: Some(at(Name("f"), 0, 1)),
            is_rec: true,
            ty: Some(arrow(Ty::Int, Ty::Int)),
            lambda: term(lambda),
        },
    };
    at(content, 0, 1)
}

fn grow(smaller: &[Shape], wide: bool) -> Vec<Shape> {
    let mut shapes = Vec::new();
    for a in smaller {
        let a = || Box::new(a.clone());
        shapes.push(Shape::Neg(a()));
        shapes.push(Shape::Not(a()));
        shapes.push(Shape::Abs(Ty::Int, a()));
        shapes.push(Shape::Abs(Ty::Bool, a()));
        shapes.push(Shape::Rec(a()));
        for b in smaller {
            let b = || Box::new(b.clone());
            shapes.push(Shape::App(a(), b()));
            shapes.push(Shape::Let(a(), b()));
            shapes.push(Shape::Binary(BinOp::Div, a(), b()));
            if wide {
                shapes.push(Shape::Binary(BinOp::And, a(), b()));
                shapes.push(Shape::Binary(BinOp::Eq, a(), b()));
                for c in smaller {
                    shapes.push(Shape::Cond(a(), b(), Box::new(c.clone())));
                }
            }
        }
    }
    shapes
}

#[test]
fn well_typed_small_terms_do_not_get_stuck() {
    let leaves = vec![
        Shape::Number,
        Shape::Truth,
        Shape::Nothing,
        Shape::Var(0),
        Shape::Var(1),
    ];
    let mut small = leaves.clone();
    small.extend(grow(&leaves, true));
    let mut all = small.clone();
    all.extend(grow(&small, false));
    let machine = Machine::new(8);
    let mut accepted = 0;
    let mut rejected = 0;
    let mut stuck_when_ill_typed = 0;
    for shape in &all {
        let term = term_of(shape);
        let typed = ty_check(&term);
        let outcome = machine.evaluate(lir::Term::from_mir(term));
        match typed {
            Ok(ty) => {
                accepted += 1;
                match outcome {
                    Ok(Value::Lit(literal)) => assert_eq!(literal.ty(), ty.content),
                    Ok(Value::Closure(param, _, _)) => match ty.content {
                        Ty::Arrow(from, _) => assert_eq!(param, *from),
                        other => panic!("a closure of type {:?}", other),
                    },
                    Err(fault) => assert!(!fault.is_stuck(), "{:?}", fault),
                }
            }
            Err(_) => {
                rejected += 1;
                if let Err(fault) = outcome {
                    if fault.is_stuck() {
                        stuck_when_ill_typed += 1;
                    }
                }
            }
        }
    }
    // The terms are of both kinds, and the checker turns away terms that do get stuck.
    assert!(accepted > 1000, "{} accepted", accepted);
    assert!(rejected > 1000, "{} rejected", rejected);
    assert!(stuck_when_ill_typed > 1000, "{} stuck", stuck_when_ill_typed);
}

#[test]
fn false_and_one_divided_by_zero_is_false() {
    // false && (1 / 0)
    let division = lir::Term::BinaryOp(
        BinOp::Div,
        Box::new(lir::Term::Lit(Literal::Number(1))),
        Box::new(lir::Term::Lit(Literal::Number(0))),
    );
    assert_eq!(Machine::default().evaluate(division.clone()), Err(Fault::DivisionByZero));
    let term = lir::Term::BinaryOp(
        BinOp::And,
        Box::new(lir::Term::Lit(Literal::Bool(false))),
        Box::new(division),
    );
    assert_eq!(Machine::default().evaluate(term), Ok(Value::Lit(Literal::Bool(false))));
}
