use bcalc::errors::SyntaxError;
use bcalc::position::Positioned;
use bcalc::syntax_tree::{SyntaxTree, SyntaxTreeNode};
use bcalc::token::{
    BinaryOperatorToken::{self, Add, Divide, Exponent, Modulus, Multiply, Subtract},
    FunctionNameToken::{self, Max},
    ParsedInput, Tokenizer,
    UnaryOperatorToken::{self, Negate},
};
use num::BigInt;

fn str_to_syntax_tree(input: &str) -> Result<SyntaxTree, Positioned<SyntaxError>> {
    let tokenizer = Tokenizer::new();
    let tokens = match tokenizer.tokenize(input, 10).unwrap() {
        ParsedInput::Tokens(t) => t,
        ParsedInput::Command(_, _) => panic!(),
    };
    SyntaxTree::new(tokens)
}

fn assert_int(stn: SyntaxTreeNode, value: i64, start: usize, width: usize) {
    let span = stn.position();
    assert_eq!(span.start, start);
    assert_eq!(span.width, width);
    match stn {
        SyntaxTreeNode::Number { value: v, position } => {
            assert_eq!(v.numer(), &BigInt::from(value));
            assert_eq!(v.denom(), &BigInt::from(1));
            assert_eq!(position.start, start);
            assert_eq!(position.width, width);
        }
        _ => panic!(),
    }
}

fn assert_var(stn: SyntaxTreeNode, value: &str, start: usize, width: usize) {
    let span = stn.position();
    assert_eq!(span.start, start);
    assert_eq!(span.width, width);
    match stn {
        SyntaxTreeNode::Variable { name, position } => {
            assert_eq!(&name, value);
            assert_eq!(position.start, start);
            assert_eq!(position.width, width);
        }
        _ => panic!(),
    }
}

fn assert_binary_operator(
    stn: SyntaxTreeNode,
    operator: BinaryOperatorToken,
    operator_start: usize,
    operator_width: usize,
    expression_start: usize,
    expression_width: usize,
) -> (SyntaxTreeNode, SyntaxTreeNode) {
    let span = stn.position();
    assert_eq!(span.start, expression_start);
    assert_eq!(span.width, expression_width);
    match stn {
        SyntaxTreeNode::Binary { operator: op, operator_position, operand_1, operand_2 } => {
            assert_eq!(op, operator);
            assert_eq!(operator_position.start, operator_start);
            assert_eq!(operator_position.width, operator_width);
            (*operand_1, *operand_2)
        }
        _ => panic!(),
    }
}

fn assert_parens(stn: SyntaxTreeNode, open_position: usize, close_position: usize) -> SyntaxTreeNode {
    let span = stn.position();
    assert_eq!(span.start, open_position);
    assert_eq!(span.width, close_position - open_position + 1);
    match stn {
        SyntaxTreeNode::Parenthesized { open_position: o, close_position: c, node } => {
            assert_eq!(o.start, open_position);
            assert_eq!(o.width, 1);
            assert_eq!(c.start, close_position);
            assert_eq!(c.width, 1);
            *node
        }
        _ => panic!(),
    }
}

fn assert_unary_operator(
    stn: SyntaxTreeNode,
    operator: UnaryOperatorToken,
    operator_start: usize,
    operator_width: usize,
    expression_start: usize,
    expression_width: usize,
) -> SyntaxTreeNode {
    let span = stn.position();
    assert_eq!(span.start, expression_start);
    assert_eq!(span.width, expression_width);
    match stn {
        SyntaxTreeNode::Unary { operator: op, operator_position, operand } => {
            assert_eq!(op, operator);
            assert_eq!(operator_position.start, operator_start);
            assert_eq!(operator_position.width, operator_width);
            *operand
        }
        _ => panic!(),
    }
}

fn assert_function(
    stn: SyntaxTreeNode,
    function_name: FunctionNameToken,
    name_start: usize,
    name_width: usize,
    operands_start: usize,
    operands_width: usize,
) -> Vec<SyntaxTreeNode> {
    match stn {
        SyntaxTreeNode::Function {
            function_name: f,
            function_name_position,
            operands,
            operands_position,
        } => {
            assert_eq!(f, function_name);
            assert_eq!(function_name_position.start, name_start);
            assert_eq!(function_name_position.width, name_width);
            assert_eq!(operands_position.start, operands_start);
            assert_eq!(operands_position.width, operands_width);
            operands
        }
        _ => panic!(),
    }
}

#[test]
fn lone_value() {
    let st = str_to_syntax_tree("123").unwrap();
    assert!(st.maybe_result_var.is_none());
    assert_int(st.root, 123, 0, 3);
}

#[test]
fn lone_value_with_padding() {
    let st = str_to_syntax_tree("  123  ").unwrap();
    assert!(st.maybe_result_var.is_none());
    assert_int(st.root, 123, 2, 3);
}

#[test]
fn lone_var() {
    let st = str_to_syntax_tree("$var").unwrap();
    assert!(st.maybe_result_var.is_none());
    assert_var(st.root, "$var", 0, 4);
}

#[test]
fn consecutive_ints() {
    let error = str_to_syntax_tree("1 2").unwrap_err();
    match error.value {
        SyntaxError::MissingOperator => {}
        _ => panic!(),
    }
    assert_eq!(error.position.start, 1);
    assert_eq!(error.position.width, 1);
}

#[test]
fn assignment() {
    let st = str_to_syntax_tree("$var=123").unwrap();
    match st.maybe_result_var {
        Some(var_name) => {
            assert_eq!(&var_name.value, "$var");
            assert_eq!(var_name.position.start, 0);
            assert_eq!(var_name.position.width, 4);
        }
        None => panic!(),
    }
    assert_int(st.root, 123, 5, 3);
}

#[test]
fn addition() {
    let st = str_to_syntax_tree("1+2").unwrap();
    assert!(st.maybe_result_var.is_none());
    let (operand_1, operand_2) = assert_binary_operator(st.root, Add, 1, 1, 0, 3);
    assert_int(operand_1, 1, 0, 1);
    assert_int(operand_2, 2, 2, 1);
}

#[test]
fn double_addition() {
    let st = str_to_syntax_tree("1+2+3").unwrap();
    assert!(st.maybe_result_var.is_none());
    let (operand_1_2, operand_3) = assert_binary_operator(st.root, Add, 3, 1, 0, 5);
    assert_int(operand_3, 3, 4, 1);
    let (operand_1, operand_2) = assert_binary_operator(operand_1_2, Add, 1, 1, 0, 3);
    assert_int(operand_1, 1, 0, 1);
    assert_int(operand_2, 2, 2, 1);
}

#[test]
fn mixed_operator_chain() {
    let st = str_to_syntax_tree("1+2+3-4*5/6+7^8%9").unwrap();
    assert!(st.maybe_result_var.is_none());
    let (operand_1_6, operand_7_9) = assert_binary_operator(st.root, Add, 11, 1, 0, 17);
    let (operand_1_3, operand_4_6) = assert_binary_operator(operand_1_6, Subtract, 5, 1, 0, 11);
    let (operand_1_2, operand_3) = assert_binary_operator(operand_1_3, Add, 3, 1, 0, 5);
    assert_int(operand_3, 3, 4, 1);
    let (operand_1, operand_2) = assert_binary_operator(operand_1_2, Add, 1, 1, 0, 3);
    assert_int(operand_1, 1, 0, 1);
    assert_int(operand_2, 2, 2, 1);
    let (operand_4_5, operand_6) = assert_binary_operator(operand_4_6, Divide, 9, 1, 6, 5);
    assert_int(operand_6, 6, 10, 1);
    let (operand_4, operand_5) = assert_binary_operator(operand_4_5, Multiply, 7, 1, 6, 3);
    assert_int(operand_4, 4, 6, 1);
    assert_int(operand_5, 5, 8, 1);
    let (operand_7_8, operand_9) = assert_binary_operator(operand_7_9, Modulus, 15, 1, 12, 5);
    assert_int(operand_9, 9, 16, 1);
    let (operand_7, operand_8) = assert_binary_operator(operand_7_8, Exponent, 13, 1, 12, 3);
    assert_int(operand_7, 7, 12, 1);
    assert_int(operand_8, 8, 14, 1);
}

#[test]
fn order_of_operations() {
    let st = str_to_syntax_tree("1*2+3*4^(5+6)").unwrap();
    assert!(st.maybe_result_var.is_none());
    let (operand_1_2, operand_3_6) = assert_binary_operator(st.root, Add, 3, 1, 0, 13);
    let (operand_1, operand_2) = assert_binary_operator(operand_1_2, Multiply, 1, 1, 0, 3);
    assert_int(operand_1, 1, 0, 1);
    assert_int(operand_2, 2, 2, 1);
    let (operand_3, operand_4_6) = assert_binary_operator(operand_3_6, Multiply, 5, 1, 4, 9);
    assert_int(operand_3, 3, 4, 1);
    let (operand_4, operand_paren) = assert_binary_operator(operand_4_6, Exponent, 7, 1, 6, 7);
    assert_int(operand_4, 4, 6, 1);
    let operand_5_6 = assert_parens(operand_paren, 8, 12);
    let (operand_5, operand_6) = assert_binary_operator(operand_5_6, Add, 10, 1, 9, 3);
    assert_int(operand_5, 5, 9, 1);
    assert_int(operand_6, 6, 11, 1);
}

#[test]
fn negative_number() {
    let st = str_to_syntax_tree("-1").unwrap();
    assert!(st.maybe_result_var.is_none());
    let operand = assert_unary_operator(st.root, Negate, 0, 1, 0, 2);
    assert_int(operand, 1, 1, 1);
}

#[test]
fn multiply_negated_number() {
    let st = str_to_syntax_tree("---1").unwrap();
    assert!(st.maybe_result_var.is_none());
    let operand = assert_unary_operator(st.root, Negate, 0, 1, 0, 4);
    let operand = assert_unary_operator(operand, Negate, 1, 1, 1, 3);
    let operand = assert_unary_operator(operand, Negate, 2, 1, 2, 2);
    assert_int(operand, 1, 3, 1);
}

#[test]
fn subtraction() {
    let st = str_to_syntax_tree("1-2").unwrap();
    assert!(st.maybe_result_var.is_none());
    let (operand_1, operand_2) = assert_binary_operator(st.root, Subtract, 1, 1, 0, 3);
    assert_int(operand_1, 1, 0, 1);
    assert_int(operand_2, 2, 2, 1);
}

#[test]
fn subtraction_of_multiply_negated_number() {
    let st = str_to_syntax_tree("1---2").unwrap();
    assert!(st.maybe_result_var.is_none());
    let (operand_1, operand_2) = assert_binary_operator(st.root, Subtract, 1, 1, 0, 5);
    assert_int(operand_1, 1, 0, 1);
    let operand_2 = assert_unary_operator(operand_2, Negate, 2, 1, 2, 3);
    let operand_2 = assert_unary_operator(operand_2, Negate, 3, 1, 3, 2);
    assert_int(operand_2, 2, 4, 1);
}

#[test]
fn function_no_parens() {
    let st = str_to_syntax_tree("1+max 2").unwrap();
    assert!(st.maybe_result_var.is_none());
    let (operand_1, operand_max) = assert_binary_operator(st.root, Add, 1, 1, 0, 7);
    assert_int(operand_1, 1, 0, 1);
    let mut operands = assert_function(operand_max, Max, 2, 3, 6, 1);
    assert_eq!(operands.len(), 1);
    assert_int(operands.remove(0), 2, 6, 1);
}

#[test]
fn function_empty_parens() {
    let st = str_to_syntax_tree("max()").unwrap();
    assert!(st.maybe_result_var.is_none());
    let operands = assert_function(st.root, Max, 0, 3, 3, 2);
    assert_eq!(operands.len(), 0);
}

#[test]
fn function_expression_args() {
    let st = str_to_syntax_tree("max(1, -2, 3+4, max(5))").unwrap();
    assert!(st.maybe_result_var.is_none());
    let mut operands = assert_function(st.root, Max, 0, 3, 3, 20);
    assert_eq!(operands.len(), 4);
    assert_int(operands.remove(0), 1, 4, 1);
    let operand_2 = assert_unary_operator(operands.remove(0), Negate, 7, 1, 7, 2);
    assert_int(operand_2, 2, 8, 1);
    let (operand_3, operand_4) = assert_binary_operator(operands.remove(0), Add, 12, 1, 11, 3);
    assert_int(operand_3, 3, 11, 1);
    assert_int(operand_4, 4, 13, 1);
    let mut operands_max_2 = assert_function(operands.remove(0), Max, 16, 3, 19, 3);
    assert_eq!(operands_max_2.len(), 1);
    assert_int(operands_max_2.remove(0), 5, 20, 1);
}

#[test]
fn empty_input_is_no_input() {
    let error = str_to_syntax_tree("").unwrap_err();
    assert!(matches!(error.value, SyntaxError::NoInput));
}

#[test]
fn dangling_operator_misses_operand() {
    let error = str_to_syntax_tree("1+").unwrap_err();
    assert!(matches!(error.value, SyntaxError::MissingOperand(_)));
    assert_eq!(error.position.start, 1);
}

#[test]
fn empty_parens_rejected() {
    let error = str_to_syntax_tree("()").unwrap_err();
    assert!(matches!(error.value, SyntaxError::EmptyParens));
    assert_eq!(error.position.start, 0);
    assert_eq!(error.position.width, 2);
}

#[test]
fn unclosed_paren_rejected() {
    let error = str_to_syntax_tree("(1").unwrap_err();
    assert!(matches!(error.value, SyntaxError::MismatchedOpenParen));
    assert_eq!(error.position.start, 0);
}

#[test]
fn stray_close_paren_rejected() {
    let error = str_to_syntax_tree("1)").unwrap_err();
    assert!(matches!(error.value, SyntaxError::MismatchedCloseParen));
    assert_eq!(error.position.start, 1);
}

#[test]
fn stray_assignment_rejected() {
    let error = str_to_syntax_tree("1=2").unwrap_err();
    assert!(matches!(
        error.value,
        SyntaxError::UnexpectedToken(bcalc::token::Token::AssignmentOperator)
    ));
    assert_eq!(error.position.start, 1);
}

#[test]
fn function_without_parens_or_argument() {
    let error = str_to_syntax_tree("1+max").unwrap_err();
    assert!(matches!(
        error.value,
        SyntaxError::FunctionWithoutParensOrArgument(Max)
    ));
    assert_eq!(error.position.start, 2);
    assert_eq!(error.position.width, 3);
}

#[test]
fn comma_outside_function_rejected() {
    let error = str_to_syntax_tree("1,2").unwrap_err();
    assert!(matches!(
        error.value,
        SyntaxError::UnexpectedToken(bcalc::token::Token::Comma)
    ));
    assert_eq!(error.position.start, 1);
}
