use bcalc::errors::CalculatorFailure;
use bcalc::input_history::{validate_max_history_size, InputHistory};
use bcalc::position::{MaybePositioned, Position, Positioned};
use bcalc::syntax_tree::SyntaxTree;
use bcalc::token::{ParsedInput, Tokenizer};
use bcalc::variable::{Variable, VariableStore};
use num::bigint::BigInt;
use num::rational::BigRational;
use num::FromPrimitive;

fn evaluate(input: &str, vars: &mut Option<VariableStore>) -> Result<BigRational, CalculatorFailure> {
    let tokenizer = Tokenizer::new();
    let tokens = match tokenizer.tokenize(input, 10).unwrap() {
        ParsedInput::Tokens(t) => t,
        ParsedInput::Command(_, _) => panic!(),
    };
    let st = SyntaxTree::new(tokens).unwrap();
    st.execute(None, vars, 10, 10)
}

fn input_error(result: Result<BigRational, CalculatorFailure>) -> MaybePositioned<String> {
    match result {
        Err(CalculatorFailure::InputError(m)) => m,
        _ => panic!(),
    }
}

#[test]
fn max_of_values() {
    let mut vars: Option<VariableStore> = None;
    let result = evaluate("max(1,2,3)", &mut vars).unwrap();
    assert_eq!(result.numer(), &BigInt::from(3));
    assert_eq!(result.denom(), &BigInt::from(1));
}

#[test]
fn min_of_values() {
    let mut vars: Option<VariableStore> = None;
    let result = evaluate("min(4, 1+1, 9)", &mut vars).unwrap();
    assert_eq!(result.numer(), &BigInt::from(2));
}

#[test]
fn function_needs_arguments() {
    let mut vars: Option<VariableStore> = None;
    let error = input_error(evaluate("max()", &mut vars));
    assert_eq!(error.value, "Max Function has no arguments but requires them");
    assert_eq!(error.maybe_position.unwrap().start, 0);
    assert_eq!(error.maybe_position.unwrap().width, 3);
}

#[test]
fn division_by_zero() {
    let mut vars: Option<VariableStore> = None;
    let error = input_error(evaluate("1/0", &mut vars));
    assert_eq!(error.value, "Cannot divide by 0");
    assert_eq!(error.maybe_position.unwrap().start, 1);
}

#[test]
fn modulus_by_zero() {
    let mut vars: Option<VariableStore> = None;
    let error = input_error(evaluate("1%0", &mut vars));
    assert_eq!(error.value, "Cannot divide by 0");
}

#[test]
fn square_root_unimplemented() {
    let mut vars: Option<VariableStore> = None;
    let error = input_error(evaluate("sqrt 4", &mut vars));
    assert_eq!(error.value, "Encountered operation that is not yet supported");
    assert_eq!(error.maybe_position.unwrap().start, 0);
    assert_eq!(error.maybe_position.unwrap().width, 4);
}

#[test]
fn unknown_variable() {
    let mut vars: Option<VariableStore> = Some(VariableStore::new());
    let error = input_error(evaluate("$x+1", &mut vars));
    assert_eq!(error.value, "Unknown variable: $x");
    assert_eq!(error.maybe_position.unwrap().start, 0);
    assert_eq!(error.maybe_position.unwrap().width, 2);
}

#[test]
fn variable_read_without_store() {
    let mut vars: Option<VariableStore> = None;
    let error = input_error(evaluate("$x", &mut vars));
    assert_eq!(error.value, "Variable store unavailable");
}

#[test]
fn assignment_without_store() {
    let mut vars: Option<VariableStore> = None;
    let error = input_error(evaluate("$x=1", &mut vars));
    assert_eq!(error.value, "Variable store unavailable");
    assert_eq!(error.maybe_position.unwrap().start, 0);
    assert_eq!(error.maybe_position.unwrap().width, 2);
}

#[test]
fn assignment_and_readback() {
    let mut vars: Option<VariableStore> = Some(VariableStore::new());
    let result = evaluate("$a=2+3", &mut vars).unwrap();
    assert_eq!(result.numer(), &BigInt::from(5));
    let result = evaluate("$a*$a", &mut vars).unwrap();
    assert_eq!(result.numer(), &BigInt::from(25));
}

#[test]
fn modulus_sign_follows_truncation() {
    let mut vars: Option<VariableStore> = None;
    let result = evaluate("-7%3", &mut vars).unwrap();
    assert_eq!(result.numer(), &BigInt::from(-1));
    let result = evaluate("7%-3", &mut vars).unwrap();
    assert_eq!(result.numer(), &BigInt::from(1));
}

#[test]
fn abs_of_negative() {
    let mut vars: Option<VariableStore> = None;
    let result = evaluate("abs -5", &mut vars).unwrap();
    assert_eq!(result.numer(), &BigInt::from(5));
}

#[test]
fn imaginary_root_in_expression() {
    let mut vars: Option<VariableStore> = None;
    let error = input_error(evaluate("(0-4)^(1/2)", &mut vars));
    assert_eq!(error.value, "Result would be an imaginary number");
}

#[test]
fn parenthesized_passthrough() {
    let mut vars: Option<VariableStore> = None;
    let result = evaluate("((((7))))", &mut vars).unwrap();
    assert_eq!(result.numer(), &BigInt::from(7));
}

#[test]
fn exact_fraction_arithmetic() {
    let mut vars: Option<VariableStore> = None;
    let result = evaluate("1/3+1/6", &mut vars).unwrap();
    assert_eq!(result.numer(), &BigInt::from(1));
    assert_eq!(result.denom(), &BigInt::from(2));
}

#[test]
fn store_update_replaces_value() {
    let mut store = VariableStore::new();
    store
        .update(
            Variable { name: "$v".to_string(), value: BigRational::from_i64(1).unwrap() },
            None,
        )
        .unwrap();
    store
        .update(
            Variable { name: "$v".to_string(), value: BigRational::from_i64(2).unwrap() },
            Some(7),
        )
        .unwrap();
    let got = store.get("$v").unwrap();
    assert_eq!(got.value.numer(), &BigInt::from(2));
    assert_eq!(got.name, "$v");
}

#[test]
fn store_purge_removes_value() {
    let mut store = VariableStore::new();
    store
        .update(
            Variable { name: "$v".to_string(), value: BigRational::from_i64(1).unwrap() },
            None,
        )
        .unwrap();
    store.purge("$v").unwrap();
    assert!(store.get("$v").is_none());
    store.purge("$missing").unwrap();
}

#[test]
fn position_between_spans() {
    let between = Position::from_between(
        Position { start: 0, width: 1 },
        Position { start: 4, width: 2 },
    );
    assert_eq!(between.start, 1);
    assert_eq!(between.width, 3);
}

#[test]
fn position_covering_span() {
    let span = Position::from_span(
        Position { start: 3, width: 2 },
        Position { start: 0, width: 1 },
    );
    assert_eq!(span.start, 0);
    assert_eq!(span.width, 5);
}

#[test]
fn positioned_trim_strips_whitespace() {
    let mut p = Positioned::new_raw("  abc  ".to_string(), 10, 7);
    p.trim();
    assert_eq!(p.value, "abc");
    assert_eq!(p.position.start, 12);
    assert_eq!(p.position.width, 3);
}

#[test]
fn positioned_trim_all_whitespace() {
    let mut p = Positioned::new_raw("   ".to_string(), 5, 3);
    p.trim();
    assert_eq!(p.value, "");
    assert_eq!(p.position.start, 5);
    assert_eq!(p.position.width, 0);
}

#[test]
fn history_navigation_and_editing() {
    let mut history = InputHistory::new(false);
    assert_eq!(history.current_line(), "");
    history.insert_char_into_current_line(0, '1');
    history.insert_char_into_current_line(1, '+');
    history.insert_char_into_current_line(2, '2');
    assert_eq!(history.current_line(), "1+2");
    let finished = history.input_finished();
    assert_eq!(finished, "1+2");
    assert_eq!(history.current_line(), "");

    assert!(history.try_to_go_to_earlier_line());
    assert_eq!(history.current_line(), "1+2");
    assert!(!history.try_to_go_to_earlier_line());

    history.remove_char_from_current_line(1);
    assert_eq!(history.current_line(), "12");
    assert!(history.try_to_go_to_later_line());
    assert_eq!(history.current_line(), "");
    assert!(!history.try_to_go_to_later_line());
}

#[test]
fn history_loads_older_lines_on_demand() {
    let mut history = InputHistory::new(true);
    assert!(history.earlier_line_needs_db());
    history.note_db_line(Some("old line".to_string()));
    assert!(history.try_to_go_to_earlier_line());
    assert_eq!(history.current_line(), "old line");
    assert!(history.earlier_line_needs_db());
    history.note_db_line(None);
    assert!(!history.earlier_line_needs_db());
    assert!(!history.try_to_go_to_earlier_line());
}

#[test]
fn history_size_validation() {
    assert!(validate_max_history_size(1).is_ok());
    assert!(validate_max_history_size(100).is_ok());
    let message = validate_max_history_size(0).unwrap_err();
    assert_eq!(message, "Maximum history size must be at least 1");
    assert!(validate_max_history_size(-5).is_err());
}
