use bcalc::errors::ParseError;
use bcalc::position::Positioned;
use bcalc::token::{BinaryOperatorToken, FunctionNameToken, ParsedInput, Token, Tokenizer,
    UnaryOperatorToken};
use num::bigint::BigInt;

fn get_tokens(input: &str, radix: u8) -> Vec<Positioned<Token>> {
    let tokenizer = Tokenizer::new();
    let parsed = tokenizer.tokenize(input, radix).unwrap();
    match parsed {
        ParsedInput::Tokens(t) => t,
        _ => panic!(),
    }
}

fn assert_variable(token: Positioned<Token>, name: &str, start: usize, width: usize) {
    assert_eq!(token.position.start, start);
    assert_eq!(token.position.width, width);
    match token.value {
        Token::Variable(n) => assert_eq!(n, name),
        _ => panic!(),
    }
}

fn assert_assignment(token: Positioned<Token>, start: usize, width: usize) {
    assert_eq!(token.position.start, start);
    assert_eq!(token.position.width, width);
    match token.value {
        Token::AssignmentOperator => {}
        _ => panic!(),
    }
}

fn assert_number(token: Positioned<Token>, numer: u64, denom: u64, start: usize, width: usize) {
    assert_eq!(token.position.start, start);
    assert_eq!(token.position.width, width);
    match token.value {
        Token::Number(n) => {
            assert_eq!(n.numer(), &BigInt::from(numer));
            assert_eq!(n.denom(), &BigInt::from(denom));
        }
        _ => panic!(),
    }
}

fn assert_comma(token: Positioned<Token>, start: usize, width: usize) {
    assert_eq!(token.position.start, start);
    assert_eq!(token.position.width, width);
    match token.value {
        Token::Comma => {}
        _ => panic!(),
    }
}

fn assert_open_paren(token: Positioned<Token>, start: usize, width: usize) {
    assert_eq!(token.position.start, start);
    assert_eq!(token.position.width, width);
    match token.value {
        Token::OpenParen => {}
        _ => panic!(),
    }
}

fn assert_close_paren(token: Positioned<Token>, start: usize, width: usize) {
    assert_eq!(token.position.start, start);
    assert_eq!(token.position.width, width);
    match token.value {
        Token::CloseParen => {}
        _ => panic!(),
    }
}

fn assert_binary_op(
    token: Positioned<Token>,
    op: BinaryOperatorToken,
    start: usize,
    width: usize,
) {
    assert_eq!(token.position.start, start);
    assert_eq!(token.position.width, width);
    match token.value {
        Token::BinaryOperator(t) => assert_eq!(t, op),
        _ => panic!(),
    }
}

fn assert_unary_op(token: Positioned<Token>, op: UnaryOperatorToken, start: usize, width: usize) {
    assert_eq!(token.position.start, start);
    assert_eq!(token.position.width, width);
    match token.value {
        Token::UnaryOperator(t) => assert_eq!(t, op),
        _ => panic!(),
    }
}

fn assert_function(token: Positioned<Token>, f: FunctionNameToken, start: usize, width: usize) {
    assert_eq!(token.position.start, start);
    assert_eq!(token.position.width, width);
    match token.value {
        Token::Function(t) => assert_eq!(t, f),
        _ => panic!(),
    }
}

#[test]
fn all_tokens_no_spaces() {
    let tokens = get_tokens("$var=1,.1()+-*/%^sqrt,abs,max,min", 10);
    let mut token_iter = tokens.into_iter();
    assert_variable(token_iter.next().unwrap(), "$var", 0, 4);
    assert_assignment(token_iter.next().unwrap(), 4, 1);
    assert_number(token_iter.next().unwrap(), 1, 1, 5, 1);
    assert_comma(token_iter.next().unwrap(), 6, 1);
    assert_number(token_iter.next().unwrap(), 1, 10, 7, 2);
    assert_open_paren(token_iter.next().unwrap(), 9, 1);
    assert_close_paren(token_iter.next().unwrap(), 10, 1);
    assert_binary_op(token_iter.next().unwrap(), BinaryOperatorToken::Add, 11, 1);
    assert_binary_op(token_iter.next().unwrap(), BinaryOperatorToken::Subtract, 12, 1);
    assert_binary_op(token_iter.next().unwrap(), BinaryOperatorToken::Multiply, 13, 1);
    assert_binary_op(token_iter.next().unwrap(), BinaryOperatorToken::Divide, 14, 1);
    assert_binary_op(token_iter.next().unwrap(), BinaryOperatorToken::Modulus, 15, 1);
    assert_binary_op(token_iter.next().unwrap(), BinaryOperatorToken::Exponent, 16, 1);
    assert_unary_op(token_iter.next().unwrap(), UnaryOperatorToken::SquareRoot, 17, 4);
    assert_comma(token_iter.next().unwrap(), 21, 1);
    assert_unary_op(token_iter.next().unwrap(), UnaryOperatorToken::AbsoluteValue, 22, 3);
    assert_comma(token_iter.next().unwrap(), 25, 1);
    assert_function(token_iter.next().unwrap(), FunctionNameToken::Max, 26, 3);
    assert_comma(token_iter.next().unwrap(), 29, 1);
    assert_function(token_iter.next().unwrap(), FunctionNameToken::Min, 30, 3);
    assert!(token_iter.next().is_none());
}

#[test]
fn all_tokens_with_spaces() {
    let tokens = get_tokens(" $var = , 1 1.1 ( ) + - * / % ^ sqrt abs max min ", 10);
    let mut token_iter = tokens.into_iter();
    assert_variable(token_iter.next().unwrap(), "$var", 1, 4);
    assert_assignment(token_iter.next().unwrap(), 6, 1);
    assert_comma(token_iter.next().unwrap(), 8, 1);
    assert_number(token_iter.next().unwrap(), 1, 1, 10, 1);
    assert_number(token_iter.next().unwrap(), 11, 10, 12, 3);
    assert_open_paren(token_iter.next().unwrap(), 16, 1);
    assert_close_paren(token_iter.next().unwrap(), 18, 1);
    assert_binary_op(token_iter.next().unwrap(), BinaryOperatorToken::Add, 20, 1);
    assert_binary_op(token_iter.next().unwrap(), BinaryOperatorToken::Subtract, 22, 1);
    assert_binary_op(token_iter.next().unwrap(), BinaryOperatorToken::Multiply, 24, 1);
    assert_binary_op(token_iter.next().unwrap(), BinaryOperatorToken::Divide, 26, 1);
    assert_binary_op(token_iter.next().unwrap(), BinaryOperatorToken::Modulus, 28, 1);
    assert_binary_op(token_iter.next().unwrap(), BinaryOperatorToken::Exponent, 30, 1);
    assert_unary_op(token_iter.next().unwrap(), UnaryOperatorToken::SquareRoot, 32, 4);
    assert_unary_op(token_iter.next().unwrap(), UnaryOperatorToken::AbsoluteValue, 37, 3);
    assert_function(token_iter.next().unwrap(), FunctionNameToken::Max, 41, 3);
    assert_function(token_iter.next().unwrap(), FunctionNameToken::Min, 45, 3);
    assert!(token_iter.next().is_none());
}

#[test]
fn multiple_decimal_points() {
    let tokenizer = Tokenizer::new();
    let error = tokenizer.tokenize("1.1.1", 10).unwrap_err();
    match error.value {
        ParseError::InvalidNumber(_) => {}
        _ => panic!(),
    }
    assert_eq!(error.position.start, 0);
    assert_eq!(error.position.width, 5);
}

#[test]
fn hexadecimal_upper() {
    let tokens = get_tokens("0123456789ABCDEF", 16);
    let mut token_iter = tokens.into_iter();
    assert_number(token_iter.next().unwrap(), 81985529216486895, 1, 0, 16);
    assert!(token_iter.next().is_none());
}

#[test]
fn hexadecimal_lower() {
    let tokens = get_tokens("0123456789abcdef", 16);
    let mut token_iter = tokens.into_iter();
    assert_number(token_iter.next().unwrap(), 81985529216486895, 1, 0, 16);
    assert!(token_iter.next().is_none());
}

#[test]
fn out_of_radix_range() {
    let tokenizer = Tokenizer::new();
    let error = tokenizer.tokenize("9", 8).unwrap_err();
    match error.value {
        ParseError::InvalidNumber(_) => {}
        _ => panic!(),
    }
    assert_eq!(error.position.start, 0);
    assert_eq!(error.position.width, 1);
}

#[test]
fn non_ascii_rejected_at_first_offender() {
    let tokenizer = Tokenizer::new();
    let error = tokenizer.tokenize("12é4é", 10).unwrap_err();
    match error.value {
        ParseError::NonAscii => {}
        _ => panic!(),
    }
    assert_eq!(error.position.start, 2);
    assert_eq!(error.position.width, 1);
}

#[test]
fn underscores_are_separators() {
    let tokens = get_tokens("1_000_000", 10);
    let mut token_iter = tokens.into_iter();
    assert_number(token_iter.next().unwrap(), 1000000, 1, 0, 9);
    assert!(token_iter.next().is_none());
}

fn get_command(input: &str) -> (Positioned<String>, Positioned<String>) {
    let tokenizer = Tokenizer::new();
    let parsed = tokenizer.tokenize(input, 10).unwrap();
    match parsed {
        ParsedInput::Command(c, a) => (c, a),
        _ => panic!(),
    }
}

fn assert_pos_string(input: Positioned<String>, value: &str, start: usize, width: usize) {
    assert_eq!(input.value, value);
    assert_eq!(input.position.start, start);
    assert_eq!(input.position.width, width);
}

#[test]
fn bare_command() {
    let (command, args) = get_command("/command");
    assert_pos_string(command, "command", 0, 8);
    assert_pos_string(args, "", 8, 0);
}

#[test]
fn command_with_arg() {
    let (command, args) = get_command("/command arg1 arg2");
    assert_pos_string(command, "command", 0, 8);
    assert_pos_string(args, "arg1 arg2", 9, 9);
}

#[test]
fn command_whitespace_arg() {
    let (command, args) = get_command("  /command     ");
    assert_pos_string(command, "command", 2, 8);
    assert_pos_string(args, "    ", 11, 4);
}

#[test]
fn empty_var_list() {
    let tokenizer = Tokenizer::new();
    let vars = tokenizer.tokenize_variable_list("").unwrap();
    assert!(vars.is_empty());
}

#[test]
fn singleton_var_list() {
    let tokenizer = Tokenizer::new();
    let vars = tokenizer.tokenize_variable_list("$var").unwrap();
    let mut vars_iter = vars.into_iter();
    assert_pos_string(vars_iter.next().unwrap(), "$var", 0, 4);
    assert!(vars_iter.next().is_none());
}

#[test]
fn multiple_var_list() {
    let tokenizer = Tokenizer::new();
    let vars = tokenizer
        .tokenize_variable_list("$var1 $var2 $var3")
        .unwrap();
    let mut var_iter = vars.into_iter();
    assert_pos_string(var_iter.next().unwrap(), "$var1", 0, 5);
    assert_pos_string(var_iter.next().unwrap(), "$var2", 6, 5);
    assert_pos_string(var_iter.next().unwrap(), "$var3", 12, 5);
    assert!(var_iter.next().is_none());
}

#[test]
fn var_list_rejects_numbers() {
    let tokenizer = Tokenizer::new();
    let error = tokenizer.tokenize_variable_list("$a 17").unwrap_err();
    assert_eq!(error.value, "Expected variable, found Number (17)");
    assert_eq!(error.position.start, 3);
    assert_eq!(error.position.width, 2);
}

fn assert_int(input: Positioned<i64>, value: i64, start: usize, width: usize) {
    assert_eq!(input.value, value);
    assert_eq!(input.position.start, start);
    assert_eq!(input.position.width, width);
}

#[test]
fn empty_int_list() {
    let tokenizer = Tokenizer::new();
    let ints = tokenizer.tokenize_int_list("", 10).unwrap();
    assert!(ints.is_empty());
}

#[test]
fn singleton_int_list() {
    let tokenizer = Tokenizer::new();
    let ints = tokenizer.tokenize_int_list("123", 10).unwrap();
    let mut int_iter = ints.into_iter();
    assert_int(int_iter.next().unwrap(), 123, 0, 3);
    assert!(int_iter.next().is_none());
}

#[test]
fn singleton_negative_int_list() {
    let tokenizer = Tokenizer::new();
    let ints = tokenizer.tokenize_int_list("-123", 10).unwrap();
    let mut int_iter = ints.into_iter();
    assert_int(int_iter.next().unwrap(), -123, 0, 4);
    assert!(int_iter.next().is_none());
}

#[test]
fn multiple_int_list() {
    let tokenizer = Tokenizer::new();
    let ints = tokenizer.tokenize_int_list("123 456 789", 10).unwrap();
    let mut int_iter = ints.into_iter();
    assert_int(int_iter.next().unwrap(), 123, 0, 3);
    assert_int(int_iter.next().unwrap(), 456, 4, 3);
    assert_int(int_iter.next().unwrap(), 789, 8, 3);
    assert!(int_iter.next().is_none());
}

#[test]
fn multiple_negative_int_list() {
    let tokenizer = Tokenizer::new();
    let ints = tokenizer.tokenize_int_list("-123 456 -789", 10).unwrap();
    let mut int_iter = ints.into_iter();
    assert_int(int_iter.next().unwrap(), -123, 0, 4);
    assert_int(int_iter.next().unwrap(), 456, 5, 3);
    assert_int(int_iter.next().unwrap(), -789, 9, 4);
    assert!(int_iter.next().is_none());
}

#[test]
fn int_list_rejects_decimals() {
    let tokenizer = Tokenizer::new();
    let error = tokenizer.tokenize_int_list("1.5", 10).unwrap_err();
    assert_eq!(error.value, "Expected an integer, found decimal: 3/2");
    assert_eq!(error.position.start, 0);
    assert_eq!(error.position.width, 3);
}

#[test]
fn int_list_rejects_double_negative() {
    let tokenizer = Tokenizer::new();
    let error = tokenizer.tokenize_int_list("--5", 10).unwrap_err();
    assert_eq!(error.value, "Two negative signs in a row");
    assert_eq!(error.position.start, 0);
    assert_eq!(error.position.width, 2);
}

#[test]
fn int_list_rejects_trailing_sign() {
    let tokenizer = Tokenizer::new();
    let error = tokenizer.tokenize_int_list("5 -", 10).unwrap_err();
    assert_eq!(error.value, "Found negative sign without value");
    assert_eq!(error.position.start, 2);
    assert_eq!(error.position.width, 1);
}

#[test]
fn int_list_rejects_huge_values() {
    let tokenizer = Tokenizer::new();
    let error = tokenizer
        .tokenize_int_list("99999999999999999999", 10)
        .unwrap_err();
    assert_eq!(
        error.value,
        "Value must be representable as a 64-bit signed integer"
    );
}
