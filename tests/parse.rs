use expr_parser::grammar::PI_BITS;
use expr_parser::{parse_expr, parse_literal, Expr, FunctionID, ParseError};

fn num(v: f64) -> Expr {
    Expr::Const(v.to_bits())
}

fn bx(e: Expr) -> Box<Expr> {
    Box::new(e)
}

#[test]
fn literal_1() {
    assert!(parse_literal("3.14").is_ok());
    assert_eq!(parse_literal("3.14"), Ok(("", num(3.14))));
}

#[test]
fn literal_2() {
    assert!(parse_literal("34327689").is_ok());
    assert_eq!(parse_literal("34327689"), Ok(("", num(34327689.0))));
}

#[test]
fn several_expressions() {
    let expressions = ["7+4", "3*y^2", "π", "-7", "8--1", "-π", "7*(x+1)"];
    for s in expressions.iter() {
        assert!(parse_expr(s).is_ok(), "{}", s);
    }
}

// A bare identifier has no syntax yet, and no whitespace is skipped.
#[test]
fn identifiers_and_spaces_are_not_read() {
    let expressions = ["x^2", "x^2+y^2+x*y+x+5*y", "sqrt -1", "sin cos 4"];
    let positions = [0, 0, 4, 3];
    for (s, position) in expressions.iter().zip(positions.iter()) {
        assert_eq!(parse_expr(s), Err(ParseError { position: *position }), "{}", s);
    }
}

#[test]
fn numeral_text_reads_its_value() {
    assert_eq!(parse_literal("11e-1"), Ok(("", num(1.1))));
    assert_eq!(parse_literal("123E-02"), Ok(("", num(1.23))));
    assert_eq!(parse_literal("0.5"), Ok(("", num(0.5))));
    assert_eq!(parse_literal("1.5e-2x"), Ok(("x", num(0.015))));
    assert_eq!(parse_literal("+5"), Ok(("", num(5.0))));
}

#[test]
fn subtraction_folds_left() {
    let expected = Expr::Sub(bx(Expr::Sub(bx(num(8.0)), bx(num(4.0)))), bx(num(1.0)));
    assert_eq!(parse_expr("8-4-1"), Ok(("", expected)));
}

#[test]
fn division_and_exponent_fold_left() {
    let div = Expr::Div(bx(Expr::Div(bx(num(8.0)), bx(num(4.0)))), bx(num(2.0)));
    assert_eq!(parse_expr("8/4/2"), Ok(("", div)));
    let pow = Expr::Exponent(bx(Expr::Exponent(bx(num(2.0)), bx(num(3.0)))), bx(num(2.0)));
    assert_eq!(parse_expr("2^3^2"), Ok(("", pow)));
}

#[test]
fn minus_then_negative_operand() {
    let expected = Expr::Sub(bx(num(8.0)), bx(Expr::Neg(bx(num(1.0)))));
    assert_eq!(parse_expr("8--1"), Ok(("", expected)));
}

#[test]
fn sign_binds_tighter_than_exponent() {
    let expected = Expr::Exponent(bx(Expr::Neg(bx(num(2.0)))), bx(num(2.0)));
    assert_eq!(parse_expr("-2^2"), Ok(("", expected)));
}

#[test]
fn precedence_of_the_levels() {
    let expected = Expr::Add(bx(num(1.0)), bx(Expr::Mul(bx(num(2.0)), bx(num(3.0)))));
    assert_eq!(parse_expr("1+2*3"), Ok(("", expected)));
    let expected = Expr::Mul(bx(num(2.0)), bx(Expr::Exponent(bx(num(3.0)), bx(num(2.0)))));
    assert_eq!(parse_expr("2*3^2"), Ok(("", expected)));
    let expected = Expr::Sub(bx(Expr::Add(bx(num(1.0)), bx(num(2.0)))), bx(num(3.0)));
    assert_ne!(parse_expr("1+2-3"), Ok(("", expected)));
    let expected = Expr::Add(bx(num(1.0)), bx(Expr::Sub(bx(num(2.0)), bx(num(3.0)))));
    assert_eq!(parse_expr("1+2-3"), Ok(("", expected)));
}

#[test]
fn functions_nest_outermost_first() {
    let expected = Expr::Function(
        FunctionID::Sin,
        bx(Expr::Function(FunctionID::Cos, bx(num(4.0)))),
    );
    assert_eq!(parse_expr("sincos4"), Ok(("", expected)));
}

#[test]
fn function_names_take_the_longest_match() {
    assert_eq!(parse_expr("sinh2"), Ok(("", Expr::Function(FunctionID::Sinh, bx(num(2.0))))));
    assert_eq!(parse_expr("cosh2"), Ok(("", Expr::Function(FunctionID::Cosh, bx(num(2.0))))));
    assert_eq!(parse_expr("√4"), Ok(("", Expr::Function(FunctionID::Sqrt, bx(num(4.0))))));
    assert_eq!(parse_expr("sqrt4"), Ok(("", Expr::Function(FunctionID::Sqrt, bx(num(4.0))))));
    assert_eq!(parse_expr("ld8"), Ok(("", Expr::Function(FunctionID::Ld, bx(num(8.0))))));
}

#[test]
fn function_applies_to_an_exponent_operand() {
    let expected = Expr::Function(
        FunctionID::Ln,
        bx(Expr::Exponent(bx(num(2.0)), bx(num(3.0)))),
    );
    assert_eq!(parse_expr("ln2^3"), Ok(("", expected)));
}

#[test]
fn parenthesised_group_recurses() {
    let expected = Expr::Mul(bx(num(7.0)), bx(Expr::Add(bx(num(2.0)), bx(num(1.0)))));
    assert_eq!(parse_expr("7*(2+1)"), Ok(("", expected)));
    assert_eq!(parse_expr("7*(x+1)"), Ok(("*(x+1)", num(7.0))));
    assert_eq!(parse_literal("(8-4)"), Ok(("", Expr::Sub(bx(num(8.0)), bx(num(4.0))))));
}

#[test]
fn pi_is_exact() {
    assert_eq!(PI_BITS, 3.141592653589793f64.to_bits());
    assert_eq!(parse_literal("π"), Ok(("", Expr::Const(PI_BITS))));
    assert_eq!(parse_expr("-π"), Ok(("", Expr::Neg(bx(Expr::Const(PI_BITS))))));
}

#[test]
fn rest_follows_what_was_read() {
    let inputs = ["1+2)abc", "7+", "8 - 1", "(1)(2)", "3*y^2"];
    let rests = [")abc", "+", " - 1", "(2)", "*y^2"];
    for (input, rest) in inputs.iter().zip(rests.iter()) {
        let (r, _) = parse_expr(input).unwrap();
        assert_eq!(r, *rest);
        let read = &input[..input.len() - r.len()];
        assert_eq!(format!("{}{}", read, r), *input);
    }
}

#[test]
fn unreadable_input_is_an_error() {
    let inputs = ["", "abc", "(1+2", ")", "-", "*3", "sin", "--", "lnsin-x", "ln(y)"];
    let positions = [0, 0, 0, 0, 1, 0, 3, 1, 6, 2];
    for (s, position) in inputs.iter().zip(positions.iter()) {
        assert_eq!(parse_expr(s), Err(ParseError { position: *position }), "{}", s);
    }
    assert_eq!(parse_literal("-1x"), Ok(("x", num(-1.0))));
    assert_eq!(parse_literal("y"), Err(ParseError { position: 0 }));
    assert_eq!(parse_literal("-"), Err(ParseError { position: 0 }));
}

#[test]
fn function_names_resolve() {
    assert_eq!(FunctionID::from_str("√"), Some(FunctionID::Sqrt));
    assert_eq!(FunctionID::from_str("sqrt"), Some(FunctionID::Sqrt));
    assert_eq!(FunctionID::from_str("ln"), Some(FunctionID::Ln));
    assert_eq!(FunctionID::from_str("lb"), Some(FunctionID::Lb));
    assert_eq!(FunctionID::from_str("ld"), Some(FunctionID::Ld));
    assert_eq!(FunctionID::from_str("sin"), Some(FunctionID::Sin));
    assert_eq!(FunctionID::from_str("cos"), Some(FunctionID::Cos));
    assert_eq!(FunctionID::from_str("tan"), Some(FunctionID::Tan));
    assert_eq!(FunctionID::from_str("sinh"), Some(FunctionID::Sinh));
    assert_eq!(FunctionID::from_str("cosh"), Some(FunctionID::Cosh));
    assert_eq!(FunctionID::from_str("Sin"), None);
    assert_eq!(FunctionID::from_str("sinhh"), None);
    assert_eq!(FunctionID::from_str(""), None);
}
