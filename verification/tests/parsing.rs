use pijama::ast::{BinOp, Literal, Name, Node, UnOp};
use pijama::machine::{Fault, Value};
use pijama::parser::{parse, Expected, ParsingError};
use pijama::ty::{Binding, Ty, TyError};
use pijama::{run, LangError, Located, Location};

fn at<T>(content: T, start: usize, end: usize) -> Located<T> {
    Located::new(content, Location::new(start, end))
}

fn num(n: i128, start: usize, end: usize) -> Located<Node<'static>> {
    at(Node::Literal(Literal::Number(n)), start, end)
}

fn name(text: &'static str, start: usize, end: usize) -> Located<Node<'static>> {
    at(Node::Name(Name(text)), start, end)
}

fn binary(
    op: BinOp,
    left: Located<Node<'static>>,
    right: Located<Node<'static>>,
) -> Located<Node<'static>> {
    let loc = left.loc + right.loc;
    Located::new(Node::BinaryOp(op, Box::new(left), Box::new(right)), loc)
}

fn only(input: &'static str) -> Located<Node<'static>> {
    let mut block = parse(input).expect("the text is a program");
    assert_eq!(block.content.len(), 1, "one statement in {:?}", input);
    block.content.pop().unwrap()
}

fn failure(pos: usize, expected: Expected) -> ParsingError {
    ParsingError { loc: Location::new(pos, pos), expected }
}

fn number(n: i128) -> Result<Value, Fault> {
    Ok(Value::Lit(Literal::Number(n)))
}

#[test]
fn parses_literals() {
    assert_eq!(only("42"), num(42, 0, 2));
    assert_eq!(only("true"), at(Node::Literal(Literal::Bool(true)), 0, 4));
    assert_eq!(only("false"), at(Node::Literal(Literal::Bool(false)), 0, 5));
    assert_eq!(only("unit"), at(Node::Literal(Literal::Unit), 0, 4));
    assert_eq!(only("  7  "), num(7, 2, 3));
    assert_eq!(
        only("170141183460469231731687303715884105727"),
        num(i128::MAX, 0, 39)
    );
}

#[test]
fn number_that_does_not_fit_is_rejected() {
    assert_eq!(
        parse("170141183460469231731687303715884105728"),
        Err(failure(0, Expected::Number))
    );
    assert_eq!(
        parse("1 + 99999999999999999999999999999999999999999999"),
        Err(failure(4, Expected::Number))
    );
}

#[test]
fn parses_names_and_keeps_words_that_only_start_like_keywords() {
    assert_eq!(only("x"), name("x", 0, 1));
    assert_eq!(only("fact_2"), name("fact_2", 0, 6));
    assert_eq!(only("_x"), name("_x", 0, 2));
    assert_eq!(only("iffy"), name("iffy", 0, 4));
    assert_eq!(only("endless"), name("endless", 0, 7));
    assert_eq!(only("truest"), name("truest", 0, 6));
}

#[test]
fn multiplication_binds_tighter_than_addition() {
    assert_eq!(
        only("1 + 2 * 3"),
        binary(BinOp::Add, num(1, 0, 1), binary(BinOp::Mul, num(2, 4, 5), num(3, 8, 9)))
    );
    assert_eq!(
        only("1 * 2 + 3"),
        binary(BinOp::Add, binary(BinOp::Mul, num(1, 0, 1), num(2, 4, 5)), num(3, 8, 9))
    );
}

#[test]
fn operators_of_one_level_associate_to_the_left() {
    assert_eq!(
        only("10 - 4 - 3"),
        binary(BinOp::Sub, binary(BinOp::Sub, num(10, 0, 2), num(4, 5, 6)), num(3, 9, 10))
    );
    assert_eq!(run("10 - 4 - 3"), Ok(number(3)));
    assert_eq!(run("100 / 10 / 5"), Ok(number(2)));
}

#[test]
fn levels_of_the_operators() {
    // Logic is loosest, then comparison, then bits, then sums, then products.
    assert_eq!(
        only("a && b < c | d + e * f"),
        binary(
            BinOp::And,
            name("a", 0, 1),
            binary(
                BinOp::Lt,
                name("b", 5, 6),
                binary(
                    BinOp::BitOr,
                    name("c", 9, 10),
                    binary(
                        BinOp::Add,
                        name("d", 13, 14),
                        binary(BinOp::Mul, name("e", 17, 18), name("f", 21, 22))
                    )
                )
            )
        )
    );
}

#[test]
fn every_operator_is_read() {
    let cases: Vec<(&'static str, BinOp)> = vec![
        ("1 + 2", BinOp::Add),
        ("1 - 2", BinOp::Sub),
        ("1 * 2", BinOp::Mul),
        ("1 / 2", BinOp::Div),
        ("1 % 2", BinOp::Rem),
        ("1 & 2", BinOp::BitAnd),
        ("1 | 2", BinOp::BitOr),
        ("1 ^ 2", BinOp::BitXor),
        ("1 < 2", BinOp::Lt),
        ("1 > 2", BinOp::Gt),
    ];
    for (text, op) in cases {
        assert_eq!(only(text), binary(op, num(1, 0, 1), num(2, 4, 5)), "{}", text);
    }
    let wide: Vec<(&'static str, BinOp)> = vec![
        ("1 && 2", BinOp::And),
        ("1 || 2", BinOp::Or),
        ("1 >> 2", BinOp::Shr),
        ("1 << 2", BinOp::Shl),
        ("1 == 2", BinOp::Eq),
        ("1 != 2", BinOp::Neq),
        ("1 <= 2", BinOp::Lte),
        ("1 >= 2", BinOp::Gte),
    ];
    for (text, op) in wide {
        assert_eq!(only(text), binary(op, num(1, 0, 1), num(2, 5, 6)), "{}", text);
    }
}

#[test]
fn brackets_group_and_take_the_place_of_their_node() {
    assert_eq!(
        only("(1 + 2) * 3"),
        binary(
            BinOp::Mul,
            at(
                Node::BinaryOp(BinOp::Add, Box::new(num(1, 1, 2)), Box::new(num(2, 5, 6))),
                0,
                7
            ),
            num(3, 10, 11)
        )
    );
    assert_eq!(run("(1 + 2) * 3"), Ok(number(9)));
}

#[test]
fn unary_operators_bind_tightest() {
    assert_eq!(
        only("-1 + 2"),
        binary(
            BinOp::Add,
            at(Node::UnaryOp(UnOp::Neg, Box::new(num(1, 1, 2))), 0, 2),
            num(2, 5, 6)
        )
    );
    assert_eq!(
        only("!!true"),
        at(
            Node::UnaryOp(
                UnOp::Not,
                Box::new(at(
                    Node::UnaryOp(
                        UnOp::Not,
                        Box::new(at(Node::Literal(Literal::Bool(true)), 2, 6))
                    ),
                    1,
                    6
                ))
            ),
            0,
            6
        )
    );
    assert_eq!(run("3 - -2"), Ok(number(5)));
}

#[test]
fn parses_bindings() {
    assert_eq!(
        only("x = 1"),
        at(Node::LetBind(at(Name("x"), 0, 1), None, Box::new(num(1, 4, 5))), 0, 5)
    );
    assert_eq!(
        only("x: Int = 1"),
        at(
            Node::LetBind(at(Name("x"), 0, 1), Some(at(Ty::Int, 3, 6)), Box::new(num(1, 9, 10))),
            0,
            10
        )
    );
    // `==` is a comparison, not a binding.
    assert_eq!(only("x == 1"), binary(BinOp::Eq, name("x", 0, 1), num(1, 5, 6)));
}

#[test]
fn parses_types() {
    let ty_of = |input: &'static str| match only(input).content {
        Node::LetBind(_, Some(ty), _) => ty,
        other => panic!("not an annotated binding: {:?}", other),
    };
    assert_eq!(ty_of("x: Bool = true"), at(Ty::Bool, 3, 7));
    assert_eq!(ty_of("x: Unit = unit"), at(Ty::Unit, 3, 7));
    assert_eq!(
        ty_of("f: Int -> Bool = g"),
        at(Ty::Arrow(Box::new(Ty::Int), Box::new(Ty::Bool)), 3, 14)
    );
    // The arrow associates to the right.
    assert_eq!(
        ty_of("f: Int -> Int -> Bool = g").content,
        Ty::Arrow(
            Box::new(Ty::Int),
            Box::new(Ty::Arrow(Box::new(Ty::Int), Box::new(Ty::Bool)))
        )
    );
    assert_eq!(
        ty_of("f: (Int -> Int) -> Bool = g").content,
        Ty::Arrow(
            Box::new(Ty::Arrow(Box::new(Ty::Int), Box::new(Ty::Int))),
            Box::new(Ty::Bool)
        )
    );
}

#[test]
fn parses_calls() {
    assert_eq!(only("f()"), at(Node::Call(at(Name("f"), 0, 1), vec![]), 0, 3));
    assert_eq!(
        only("f(1, x)"),
        at(Node::Call(at(Name("f"), 0, 1), vec![num(1, 2, 3), name("x", 5, 6)]), 0, 7)
    );
    assert_eq!(
        only("f (1 ,\n 2)"),
        at(Node::Call(at(Name("f"), 0, 1), vec![num(1, 3, 4), num(2, 8, 9)]), 0, 10)
    );
}

#[test]
fn parses_conditionals() {
    assert_eq!(
        only("if x do 1 else 2 end"),
        at(
            Node::Cond(
                at(vec![name("x", 3, 4)], 3, 4),
                at(vec![num(1, 8, 9)], 8, 9),
                at(vec![num(2, 15, 16)], 15, 16)
            ),
            0,
            20
        )
    );
}

#[test]
fn parses_function_definitions() {
    assert_eq!(
        only("fn add(x: Int, y: Int): Int do x + y end"),
        at(
            Node::FnDef(
                Some(at(Name("add"), 3, 6)),
                vec![
                    at(Binding { name: Name("x"), ty: Ty::Int }, 7, 13),
                    at(Binding { name: Name("y"), ty: Ty::Int }, 15, 21)
                ],
                at(vec![binary(BinOp::Add, name("x", 31, 32), name("y", 35, 36))], 31, 36),
                Some(at(Ty::Int, 24, 27))
            ),
            0,
            40
        )
    );
    assert_eq!(
        only("fn (x: Int) do x end"),
        at(
            Node::FnDef(
                None,
                vec![at(Binding { name: Name("x"), ty: Ty::Int }, 4, 10)],
                at(vec![name("x", 15, 16)], 15, 16),
                None
            ),
            0,
            20
        )
    );
    assert_eq!(
        only("fn f() do end"),
        at(Node::FnDef(Some(at(Name("f"), 3, 4)), vec![], at(vec![], 10, 10), None), 0, 13)
    );
}

#[test]
fn parses_recursive_function_definitions() {
    assert_eq!(
        only("fn rec f(n: Int): Int do f(n) end"),
        at(
            Node::FnRecDef(
                at(Name("f"), 7, 8),
                vec![at(Binding { name: Name("n"), ty: Ty::Int }, 9, 15)],
                at(
                    vec![at(Node::Call(at(Name("f"), 25, 26), vec![name("n", 27, 28)]), 25, 29)],
                    25,
                    29
                ),
                at(Ty::Int, 18, 21)
            ),
            0,
            33
        )
    );
}

#[test]
fn recursive_definition_needs_its_return_type() {
    assert_eq!(parse("fn rec f(n: Int) do n end"), Err(failure(17, Expected::Colon)));
    assert_eq!(parse("fn rec (n: Int): Int do n end"), Err(failure(7, Expected::Name)));
}

#[test]
fn statements_are_set_apart_by_white_space_or_semicolons() {
    let lines = parse("x = 1\ny = 2\nx + y").unwrap();
    let inline = parse("x = 1; y = 2; x + y").unwrap();
    assert_eq!(lines.content.len(), 3);
    assert_eq!(inline.content.len(), 3);
    assert_eq!(lines.loc, Location::new(0, 17));
    assert_eq!(run("x = 1\ny = 2\nx + y"), Ok(number(3)));
    assert_eq!(run("x = 1; y = 2; x + y"), Ok(number(3)));
}

#[test]
fn operator_stands_on_the_line_of_its_left_operand() {
    let block = parse("1\n-2").unwrap();
    assert_eq!(
        block.content,
        vec![num(1, 0, 1), at(Node::UnaryOp(UnOp::Neg, Box::new(num(2, 3, 4))), 2, 4)]
    );
    assert_eq!(
        only("1 -\n2"),
        binary(BinOp::Sub, num(1, 0, 1), num(2, 4, 5))
    );
}

#[test]
fn empty_text_is_the_empty_program() {
    assert_eq!(parse(""), Ok(at(vec![], 0, 0)));
    assert_eq!(parse(" \n\t "), Ok(at(vec![], 4, 4)));
    assert_eq!(run(""), Ok(Ok(Value::Lit(Literal::Unit))));
}

#[test]
fn parsing_errors_say_where_and_what() {
    assert_eq!(parse("1 +"), Err(failure(3, Expected::Node)));
    assert_eq!(parse("(1 + 2"), Err(failure(6, Expected::CloseParen)));
    assert_eq!(parse("f(1 2)"), Err(failure(4, Expected::CloseParen)));
    assert_eq!(parse("if x 1 else 2 end"), Err(failure(7, Expected::Do)));
    assert_eq!(parse("if x do 1 end"), Err(failure(10, Expected::Else)));
    assert_eq!(parse("if x do 1 else 2"), Err(failure(16, Expected::End)));
    assert_eq!(parse("fn f x do 1 end"), Err(failure(5, Expected::OpenParen)));
    assert_eq!(parse("fn f(x) do 1 end"), Err(failure(6, Expected::Colon)));
    assert_eq!(parse("fn f(x: ) do 1 end"), Err(failure(8, Expected::Type)));
    assert_eq!(parse("fn f(: Int) do 1 end"), Err(failure(5, Expected::Name)));
    assert_eq!(parse("fn f(x: Int) 1 end"), Err(failure(13, Expected::Do)));
    assert_eq!(parse("x: Int 1"), Err(failure(7, Expected::Equals)));
    assert_eq!(parse("x: (Int = 1"), Err(failure(8, Expected::CloseParen)));
    assert_eq!(parse("1 end"), Err(failure(2, Expected::EndOfText)));
    assert_eq!(parse("1 $"), Err(failure(2, Expected::Node)));
    assert_eq!(parse("rec"), Err(failure(0, Expected::Node)));
}

#[test]
fn text_outside_of_ascii_is_rejected_at_its_first_such_character() {
    assert_eq!(parse("x = 1 + \u{e9}"), Err(failure(8, Expected::Ascii)));
    assert_eq!(parse("\u{3bb}"), Err(failure(0, Expected::Ascii)));
    assert_eq!(
        run("ab\u{e9}"),
        Err(LangError::Parse(failure(2, Expected::Ascii)))
    );
}

#[test]
fn names_are_borrowed_from_the_text() {
    let text = String::from("result = 1");
    let block = parse(&text).unwrap();
    match &block.content[0].content {
        Node::LetBind(bound, _, _) => {
            assert_eq!(bound.content.0, "result");
            let start = text.as_ptr() as usize;
            assert_eq!(bound.content.0.as_ptr() as usize, start);
        }
        other => panic!("not a binding: {:?}", other),
    }
}

#[test]
fn runs_one_plus_two() {
    assert_eq!(run("1 + 2"), Ok(number(3)));
}

#[test]
fn rejects_one_plus_true() {
    assert_eq!(
        run("1 + true"),
        Err(LangError::Ty(TyError::Unexpected {
            expected: Ty::Int,
            found: at(Ty::Bool, 4, 8)
        }))
    );
}

#[test]
fn false_and_division_by_zero_is_false() {
    assert_eq!(run("false && (1 / 0 == 0)"), Ok(Ok(Value::Lit(Literal::Bool(false)))));
    assert_eq!(run("true && (1 / 0 == 0)"), Ok(Err(Fault::DivisionByZero)));
    assert_eq!(run("true || (1 / 0 == 0)"), Ok(Ok(Value::Lit(Literal::Bool(true)))));
}

#[test]
fn runs_the_factorial_of_five() {
    let text = "fn rec fact(n: Int): Int do if n <= 1 do 1 else n * fact(n - 1) end end; fact(5)";
    assert_eq!(run(text), Ok(number(120)));
    let lines = "fn rec fact(n: Int): Int do\n    if n <= 1 do\n        1\n    else\n        n * fact(n - 1)\n    end\nend\nfact(20)";
    assert_eq!(run(lines), Ok(number(2432902008176640000)));
}

#[test]
fn runs_mutual_use_of_functions_and_bindings() {
    let text = "
        fn twice(f: Int -> Int, x: Int): Int do f(f(x)) end
        fn inc(x: Int): Int do x + 1 end
        base = 40
        twice(inc, base)
    ";
    assert_eq!(run(text), Ok(number(42)));
}

#[test]
fn runs_the_fibonacci_numbers() {
    let text = "
        fn rec fib(n: Int): Int do
            if n < 2 do n else fib(n - 1) + fib(n - 2) end
        end
        fib(15)
    ";
    assert_eq!(run(text), Ok(number(610)));
}

#[test]
fn calling_a_number_is_rejected_at_the_callee() {
    assert_eq!(
        run("x = 1; x(1 + true)"),
        Err(LangError::Ty(TyError::ExpectedFn(at(Ty::Int, 7, 8))))
    );
}

#[test]
fn unbound_name_in_text() {
    assert_eq!(
        run("1 + y"),
        Err(LangError::Ty(TyError::Unbound(at(Name("y"), 4, 5))))
    );
    assert_eq!(
        run("if true do x = 1 else 2 end; x"),
        Err(LangError::Ty(TyError::Unbound(at(Name("x"), 29, 30))))
    );
}

#[test]
fn function_marked_recursive_that_does_not_call_itself() {
    assert_eq!(run("fn rec f(n: Int): Int do n + 1 end; f(1)"), Ok(number(2)));
}

#[test]
fn endless_recursion_in_text_reaches_the_depth_limit() {
    assert_eq!(
        run("fn rec f(n: Int): Int do f(n + 1) end; f(0)"),
        Ok(Err(Fault::DepthLimit))
    );
}

#[test]
fn overflow_in_text() {
    assert_eq!(
        run("170141183460469231731687303715884105727 + 1"),
        Ok(Err(Fault::Overflow))
    );
}

#[test]
fn program_of_function_type_evaluates_to_a_closure() {
    match run("fn (x: Int) do x end") {
        Ok(Ok(Value::Closure(param, _, _))) => assert_eq!(param, Ty::Int),
        other => panic!("not a closure: {:?}", other),
    }
}

#[test]
fn parses_a_call_on_its_own() {
    let parser = pijama::parser::Parser::new("  f(1, 2) + 3").unwrap();
    assert_eq!(
        pijama::parser::call(&parser, 2),
        Ok((
            at(Node::Call(at(Name("f"), 2, 3), vec![num(1, 4, 5), num(2, 7, 8)]), 2, 9),
            9
        ))
    );
    assert_eq!(pijama::parser::call(&parser, 4), Err(failure(4, Expected::Name)));
    let bare = pijama::parser::Parser::new("f + 1").unwrap();
    assert_eq!(pijama::parser::call(&bare, 0), Err(failure(2, Expected::OpenParen)));
}

#[test]
fn parses_a_recursive_definition_on_its_own() {
    let parser = pijama::parser::Parser::new("fn rec f(n: Int): Int do n end").unwrap();
    match pijama::parser::fn_rec_def(&parser, 0) {
        Ok((node, end)) => {
            assert_eq!(end, 30);
            assert_eq!(node.loc, Location::new(0, 30));
            assert!(matches!(node.content, Node::FnRecDef(_, _, _, _)));
        }
        Err(error) => panic!("not a definition: {:?}", error),
    }
    let plain = pijama::parser::Parser::new("fn f(n: Int): Int do n end").unwrap();
    assert_eq!(pijama::parser::fn_rec_def(&plain, 0), Err(failure(3, Expected::Node)));
    assert_eq!(pijama::parser::fn_rec_def(&plain, 3), Err(failure(3, Expected::Node)));
}

#[test]
fn parser_takes_up_ascii_texts_only() {
    assert!(pijama::parser::Parser::new("x = 1").is_ok());
    assert_eq!(
        pijama::parser::Parser::new("x = \u{e9}").err(),
        Some(failure(4, Expected::Ascii))
    );
}

#[test]
fn parsing_errors_in_words() {
    assert_eq!(failure(0, Expected::Node).message(), "Expected an expression");
    assert_eq!(failure(0, Expected::CloseParen).message(), "Expected `)`");
    assert_eq!(failure(0, Expected::End).message(), "Expected `end`");
    assert_eq!(
        LangError::Parse(failure(3, Expected::Name)).message(),
        "Expected a name"
    );
    assert_eq!(LangError::from(failure(3, Expected::Name)).loc(), Location::new(3, 3));
}

#[test]
fn conditional_with_then_takes_one_node_as_its_else_branch() {
    assert_eq!(
        only("if x then 1 else 2"),
        at(
            Node::Cond(
                at(vec![name("x", 3, 4)], 3, 4),
                at(vec![num(1, 10, 11)], 10, 11),
                at(vec![num(2, 17, 18)], 17, 18)
            ),
            0,
            18
        )
    );
    assert_eq!(run("if 1 < 2 then 10 else 20"), Ok(number(10)));
    assert_eq!(run("if 2 < 1 then 10 else 20 + 1"), Ok(number(21)));
    assert_eq!(parse("if x then 1"), Err(failure(11, Expected::Else)));
    assert_eq!(parse("if x then 1 else"), Err(failure(16, Expected::Node)));
    assert_eq!(only("then_some"), name("then_some", 0, 9));
}

#[test]
fn recursive_function_round_trip() {
    let text =
        "fn rec fact(n: Int): Int do if n <= 1 then 1 else n * fact(n - 1) end; fact(5)";
    let block = parse(text).expect("the text is a program");
    let term = pijama::mir::Term::from_block(block).expect("every name is bound");
    assert_eq!(pijama::ty::ty_check(&term).map(|ty| ty.content), Ok(Ty::Int));
    assert_eq!(run(text), Ok(number(120)));
}

#[test]
fn recursion_check_on_parsed_bodies() {
    let uses = |body: &'static str| {
        let block = parse(body).expect("the text is a program");
        pijama::analysis::RecursionChecker::run(Name("f"), &block.content)
    };
    assert!(!uses("f = 1; f"));
    assert!(uses("f(1)"));
    assert!(!uses("fn f() do f() end"));
    assert!(uses("g = f; g"));
    assert!(uses("if c do f = 1 else 2 end; f"));
    assert!(!uses("f = 1; if c do f else f end"));
    assert!(uses("fn g(x: Int) do f(x) end"));
    assert!(!uses("fn g(x: Int) do f = x; f end"));
    assert!(uses("1 + f(2) * 3"));
    assert!(!uses("1 + g(2) * 3"));
}

#[test]
fn inner_function_sees_the_parameters_of_the_outer_one() {
    let text = "
        fn rec sum(n: Int): Int do
            fn add(x: Int): Int do x + n end
            if n <= 0 do 0 else add(sum(n - 1)) end
        end
        sum(4)
    ";
    assert_eq!(run(text), Ok(number(10)));
}

#[test]
fn parameter_shadows_an_outer_binding_of_its_name() {
    let text = "
        x = 100
        fn f(x: Int): Int do x + 1 end
        f(1) + x
    ";
    assert_eq!(run(text), Ok(number(102)));
}

#[test]
fn function_returns_a_function() {
    let text = "
        fn adder(n: Int): Int -> Int do
            fn (x: Int): Int do x + n end
        end
        add2 = adder(2)
        add2(40)
    ";
    assert_eq!(run(text), Ok(number(42)));
}

#[test]
fn recursive_value_without_parameters() {
    // The definition refers to itself and takes nothing: it never comes to a value.
    assert_eq!(run("fn rec f(): Int do f end; f"), Ok(Err(Fault::DepthLimit)));
    assert_eq!(run("fn rec f(): Int do 1 end; f() + f"), Ok(number(2)));
}

#[test]
fn even_and_odd_by_one_recursive_function() {
    let text = "
        fn rec even(n: Int): Bool do
            if n == 0 do true else !even(n - 1) end
        end
        even(10) && !even(7)
    ";
    assert_eq!(run(text), Ok(Ok(Value::Lit(Literal::Bool(true)))));
}

#[test]
fn binding_with_function_type_annotation() {
    let text = "
        fn inc(x: Int): Int do x + 1 end
        g: Int -> Int = inc
        g(1)
    ";
    assert_eq!(run(text), Ok(number(2)));
    assert_eq!(
        run("fn inc(x: Int): Int do x + 1 end; g: Bool -> Int = inc"),
        Err(LangError::Ty(TyError::Unexpected {
            expected: Ty::Arrow(Box::new(Ty::Bool), Box::new(Ty::Int)),
            found: at(Ty::Arrow(Box::new(Ty::Int), Box::new(Ty::Int)), 51, 54)
        }))
    );
}
