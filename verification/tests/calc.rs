use lab_suite::calc::{parse_expression, CalcError, Tok};

fn rpn(src: &str) -> Vec<Tok> {
    parse_expression(src).unwrap().1
}

#[test]
fn precedence_and_right_associative_power() {
    assert_eq!(rpn("1+2*3"), vec![Tok::Num(0, 1), Tok::Num(2, 3), Tok::Num(4, 5), Tok::Mul, Tok::Add]);
    assert_eq!(rpn("2^3^2"), vec![Tok::Num(0, 1), Tok::Num(2, 3), Tok::Num(4, 5), Tok::Pow, Tok::Pow]);
    assert_eq!(rpn("(1+2)*3"), vec![Tok::Num(1, 2), Tok::Num(3, 4), Tok::Add, Tok::Num(6, 7), Tok::Mul]);
}

#[test]
fn unary_minus_binds_below_power() {
    assert_eq!(rpn("-2^2"), vec![Tok::Num(1, 2), Tok::Num(3, 4), Tok::Pow, Tok::Neg]);
    assert_eq!(rpn("+5"), vec![Tok::Num(1, 2)]);
}

#[test]
fn decimal_comma_is_normalised() {
    let (chars, toks) = parse_expression("1,5+1").unwrap();
    assert_eq!(chars.iter().collect::<String>(), "1.5+1");
    assert_eq!(toks, vec![Tok::Num(0, 3), Tok::Num(4, 5), Tok::Add]);
}

#[test]
fn front_end_errors() {
    assert_eq!(parse_expression("").unwrap_err(), CalcError::Empty);
    assert_eq!(parse_expression("   ").unwrap_err(), CalcError::Empty);
    assert_eq!(parse_expression("(1+2").unwrap_err(), CalcError::UnclosedParen);
    assert_eq!(parse_expression("1+2)").unwrap_err(), CalcError::UnopenedParen);
    assert_eq!(parse_expression("1 2").unwrap_err(), CalcError::UnexpectedNumber);
    assert_eq!(parse_expression("2(3)").unwrap_err(), CalcError::UnexpectedParen);
    assert_eq!(parse_expression("abc").unwrap_err(), CalcError::InvalidChar('a'));
    assert_eq!(parse_expression("1..2").unwrap_err(), CalcError::InvalidNumber);
    assert_eq!(parse_expression("*2").unwrap_err(), CalcError::MissingLeftOperand('*'));
}

#[test]
fn error_messages() {
    assert_eq!(CalcError::Empty.message(), "expressão vazia");
    assert_eq!(CalcError::InvalidChar('x').message(), "caractere inválido: 'x'");
    assert_eq!(CalcError::MissingLeftOperand('*').message(), "operador '*' sem operando à esquerda");
}

fn refused(src: &str) -> bool {
    match parse_expression(src) {
        Err(_) => true,
        Ok((_, rpn)) => lab_suite::calc::check_rpn(&rpn).is_err(),
    }
}

#[test]
fn malformed_expressions_are_refused_before_arithmetic() {
    for src in ["", "   ", "1+", "(1+2", "1+2)", "1 2", "2(3)", "()", "abc", "1..2"] {
        assert!(refused(src), "{src}");
    }
    for src in ["1+2", "-5+3", "2*-3", "--5", "+5", "2^3^2", "10%3"] {
        assert!(!refused(src), "{src}");
    }
    assert_eq!(lab_suite::calc::check_rpn(&[Tok::Num(0, 1), Tok::Add]), Err(lab_suite::calc::RpnError::Incomplete));
    assert_eq!(lab_suite::calc::RpnError::Incomplete.message(), "expressão incompleta");
}

#[test]
fn equal_strength_groups_left_and_unary_minus_binds_above_product() {
    assert_eq!(rpn("8-3-2"), vec![Tok::Num(0, 1), Tok::Num(2, 3), Tok::Sub, Tok::Num(4, 5), Tok::Sub]);
    assert_eq!(rpn("8/4%3"), vec![Tok::Num(0, 1), Tok::Num(2, 3), Tok::Div, Tok::Num(4, 5), Tok::Mod]);
    assert_eq!(rpn("-2*3"), vec![Tok::Num(1, 2), Tok::Neg, Tok::Num(3, 4), Tok::Mul]);
    assert_eq!(rpn("2*(3+4)"), vec![Tok::Num(0, 1), Tok::Num(3, 4), Tok::Num(5, 6), Tok::Add, Tok::Mul]);
}
