use bcalc::operations::{exponentiate, make_decimal_string};
use bcalc::syntax_tree::SyntaxTree;
use bcalc::token::{ParsedInput, Tokenizer};
use bcalc::variable::VariableStore;
use num::bigint::BigInt;
use num::rational::BigRational;
use num::FromPrimitive;

fn evaluate_to_string(
    input: &str,
    parse_radix: u8,
    result_radix: u8,
    precision: u8,
    commas: bool,
    upper: bool,
) -> String {
    let tokenizer = Tokenizer::new();
    let tokens = match tokenizer.tokenize(input, parse_radix).unwrap() {
        ParsedInput::Tokens(t) => t,
        ParsedInput::Command(_, _) => panic!(),
    };
    let st = SyntaxTree::new(tokens).unwrap();
    let mut vars: Option<VariableStore> = None;
    let result = st.execute(None, &mut vars, precision, result_radix).unwrap();
    make_decimal_string(&result, result_radix, precision, commas, upper)
}

#[test]
fn decimal_value() {
    let result = evaluate_to_string("1234567890", 10, 10, 5, false, false);
    assert_eq!(result, "1234567890".to_string());
}

#[test]
fn negative_decimal_value() {
    let result = evaluate_to_string("-1234567890", 10, 10, 5, false, false);
    assert_eq!(result, "-1234567890".to_string());
}

#[test]
fn hex_value() {
    let result = evaluate_to_string("-1234567890ABCDEF", 16, 16, 5, false, false);
    assert_eq!(result, "-1234567890abcdef".to_string());
}

#[test]
fn hex_value_upper() {
    let result = evaluate_to_string("-1234567890ABCDEF.12A", 16, 16, 5, false, true);
    assert_eq!(result, "-1234567890ABCDEF.12A".to_string());
}

#[test]
fn precise_small_decimal() {
    let result = evaluate_to_string("0.01", 10, 10, 5, false, false);
    assert_eq!(result, "0.01".to_string());
}

#[test]
fn rounded_small_decimal() {
    let result = evaluate_to_string("0.010001", 10, 10, 5, false, false);
    assert_eq!(result, "0.01000".to_string());
}

#[test]
fn unrounded_small_decimal() {
    let result = evaluate_to_string("0.010001", 10, 10, 6, false, false);
    assert_eq!(result, "0.010001".to_string());
}

#[test]
fn precise_large_decimal() {
    let result = evaluate_to_string("-12345.01", 10, 10, 5, false, false);
    assert_eq!(result, "-12345.01".to_string());
}

#[test]
fn rounded_large_decimal() {
    let result = evaluate_to_string("-12345.010001", 10, 10, 5, false, false);
    assert_eq!(result, "-12345.01000".to_string());
}

#[test]
fn unrounded_large_decimal() {
    let result = evaluate_to_string("-12345.010001", 10, 10, 6, false, false);
    assert_eq!(result, "-12345.010001".to_string());
}

#[test]
fn zero() {
    let result = evaluate_to_string("0", 10, 10, 5, false, false);
    assert_eq!(result, "0".to_string());
}

#[test]
fn commas_1() {
    let result = evaluate_to_string("123456789", 10, 10, 5, true, false);
    assert_eq!(result, "123,456,789".to_string());
}

#[test]
fn commas_2() {
    let result = evaluate_to_string("1234567890", 10, 10, 5, true, false);
    assert_eq!(result, "1,234,567,890".to_string());
}

#[test]
fn commas_3() {
    let result = evaluate_to_string("12345678901", 10, 10, 5, true, false);
    assert_eq!(result, "12,345,678,901".to_string());
}

#[test]
fn round_down() {
    let result = evaluate_to_string("0.0000049", 10, 10, 5, false, false);
    assert_eq!(result, "0.00000".to_string());
}

#[test]
fn round_up() {
    let result = evaluate_to_string("0.000005", 10, 10, 5, false, false);
    assert_eq!(result, "0.00001".to_string());
}

#[test]
fn no_precision_zero() {
    let result = evaluate_to_string("0.1", 10, 10, 0, false, false);
    assert_eq!(result, "0".to_string());
}

#[test]
fn no_precision_positive() {
    let result = evaluate_to_string("1.1", 10, 10, 0, false, false);
    assert_eq!(result, "1".to_string());
}

#[test]
fn no_precision_negative() {
    let result = evaluate_to_string("-1.1", 10, 10, 0, false, false);
    assert_eq!(result, "-1".to_string());
}

#[test]
fn root_integer_result_1() {
    let result = evaluate_to_string("100^(1/2)", 10, 10, 10, false, false);
    assert_eq!(result, "10".to_string());
}

#[test]
fn root_integer_result_2() {
    let result = evaluate_to_string("59049^(1/10)", 10, 10, 10, false, false);
    assert_eq!(result, "3".to_string());
}

#[test]
fn exponentiate_integer_result_1() {
    let result = evaluate_to_string("9^10", 10, 10, 10, false, false);
    assert_eq!(result, "3486784401".to_string());
}

#[test]
fn exponentiate_integer_result_2() {
    let result = evaluate_to_string("-3^9", 10, 10, 10, false, false);
    assert_eq!(result, "-19683".to_string());
}

#[test]
fn exponentiate_integer_result_3() {
    let result = evaluate_to_string("-3^10", 10, 10, 10, false, false);
    assert_eq!(result, "59049".to_string());
}

#[test]
fn exponentiate_fractional_result_1() {
    let result = evaluate_to_string("2^(1/2)", 10, 10, 10, false, false);
    assert_eq!(result, "1.4142135624".to_string());
}

#[test]
fn exponentiate_fractional_result_2() {
    let result = evaluate_to_string("-2^(1/3)", 10, 10, 10, false, false);
    assert_eq!(result, "-1.2599210499".to_string());
}

#[test]
fn exponentiate_fractional_result_3() {
    let result = evaluate_to_string("-100^(7/3)", 10, 10, 10, false, false);
    assert_eq!(result, "-46415.8883361278".to_string());
}

#[test]
fn exponentiate_by_zero() {
    let result = evaluate_to_string("-100^0", 10, 10, 10, false, false);
    assert_eq!(result, "1".to_string());
}

#[test]
fn exponentiate_zero() {
    let result = evaluate_to_string("0^2", 10, 10, 10, false, false);
    assert_eq!(result, "0".to_string());
}

#[test]
fn exponentiate_zero_by_zero() {
    let result = evaluate_to_string("0^0", 10, 10, 10, false, false);
    assert_eq!(result, "1".to_string());
}

#[test]
fn exponentiate_by_negative() {
    let result = evaluate_to_string("10^-2", 10, 10, 10, false, false);
    assert_eq!(result, "0.01".to_string());
}

#[test]
fn exponentiate_one() {
    let result = evaluate_to_string("1^(999/998)", 10, 10, 10, false, false);
    assert_eq!(result, "1".to_string());
}

#[test]
fn commas_negative() {
    let result = evaluate_to_string("-1234567890", 10, 10, 5, true, false);
    assert_eq!(result, "-1,234,567,890".to_string());
}

#[test]
fn imaginary_root() {
    let base = BigRational::from_i64(-4).unwrap();
    let exponent = BigRational::new(BigInt::from(1), BigInt::from(2));
    let result = exponentiate(base, exponent, 10, 10);
    assert!(matches!(
        result,
        Err(bcalc::errors::MathExecutionError::ImaginaryResult)
    ));
}

#[test]
fn integer_power_is_exact() {
    let base = BigRational::from_i64(7).unwrap();
    let exponent = BigRational::from_i64(23).unwrap();
    let result = exponentiate(base, exponent, 0, 10).unwrap();
    assert_eq!(result.numer(), &BigInt::from(7).pow(23));
    assert_eq!(result.denom(), &BigInt::from(1));
}

#[test]
fn zero_base_negative_exponent() {
    let base = BigRational::from_i64(0).unwrap();
    let exponent = BigRational::from_i64(-2).unwrap();
    let result = exponentiate(base, exponent, 10, 10);
    assert!(matches!(
        result,
        Err(bcalc::errors::MathExecutionError::DivisionByZero)
    ));
}

#[test]
fn render_no_trailing_zeros_when_exact() {
    let value = BigRational::new(BigInt::from(1), BigInt::from(4));
    let rendered = make_decimal_string(&value, 10, 8, false, false);
    assert_eq!(rendered, "0.25");
}

#[test]
fn render_pads_when_rounding() {
    let value = BigRational::new(BigInt::from(1), BigInt::from(3));
    let rendered = make_decimal_string(&value, 10, 6, false, false);
    assert_eq!(rendered, "0.333333");
}

#[test]
fn render_zero_any_precision() {
    let value = BigRational::from_i64(0).unwrap();
    for p in [0u8, 1, 5, 20] {
        assert_eq!(make_decimal_string(&value, 10, p, false, false), "0");
        assert_eq!(make_decimal_string(&value, 16, p, true, true), "0");
    }
}

#[test]
fn exact_integer_root_is_exact() {
    let base = BigRational::from_i64(59049).unwrap();
    let exponent = BigRational::new(BigInt::from(1), BigInt::from(10));
    let result = exponentiate(base, exponent, 10, 10).unwrap();
    assert_eq!(result.numer(), &BigInt::from(3));
    assert_eq!(result.denom(), &BigInt::from(1));
}

#[test]
fn fractional_root_below_one() {
    let result = evaluate_to_string("0.25^(1/2)", 10, 10, 10, false, false);
    assert_eq!(result, "0.5000000000".to_string());
}

#[test]
fn render_binary_radix() {
    let value = BigRational::new(BigInt::from(5), BigInt::from(2));
    assert_eq!(make_decimal_string(&value, 2, 3, false, false), "10.1");
}
