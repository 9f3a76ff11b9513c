//! The syntax-tree builder.
//!
//! A token sequence becomes one expression tree, optionally preceded by an
//! assignment target. Precedence is made explicit by a flat two-pass
//! reduction rather than recursive descent: the tokens of one expression are
//! first gathered into an alternating list of operands and binary operators,
//! a right-to-left pass folds the `-` operators that stand for negation, and
//! one left-to-right pass per precedence tier combines binary operators
//! left-associatively. The spec functions in this module state the whole
//! construction mathematically; `sp_parse` is the specification
//! `SyntaxTree::new` is proved against. The spec recursion carries an
//! explicit fuel so that it is well defined on every input; the executable
//! parser threads the same fuel as ghost state, with enough of it that the
//! fuel never runs out.

use vstd::prelude::*;

verus! {

use num::rational::BigRational;

use crate::errors::{CalculatorFailure, SyntaxError, SyntaxErrorValue};
use crate::numbers::{pair_add, pair_div, pair_lt, pair_mul, pair_rem, pair_rem_common_num,
    pair_sub, rat_clone, rat_denom, rat_numer};
use crate::position::{spec_between, spec_span, Position, Positioned};
use crate::token::{tokens_view, BinaryOperatorToken, FunctionNameToken, Token, TokenValue,
    UnaryOperatorToken};

// ---------------------------------------------------------------------------
// Trees and their mathematical values
// ---------------------------------------------------------------------------

/// One node of the expression tree. Each node owns its children outright and
/// carries the spans evaluation needs for error pointing. A parenthesized
/// node is semantically transparent; it is kept only so that positions can be
/// reported over the whole parenthesized group.
#[derive(Debug)]
pub enum SyntaxTreeNode {
    Number { value: BigRational, position: Position },
    Variable { name: String, position: Position },
    Unary {
        operator: UnaryOperatorToken,
        operator_position: Position,
        operand: Box<SyntaxTreeNode>,
    },
    Binary {
        operator: BinaryOperatorToken,
        operator_position: Position,
        operand_1: Box<SyntaxTreeNode>,
        operand_2: Box<SyntaxTreeNode>,
    },
    Function {
        function_name: FunctionNameToken,
        function_name_position: Position,
        operands: Vec<SyntaxTreeNode>,
        operands_position: Position,
    },
    Parenthesized {
        open_position: Position,
        close_position: Position,
        node: Box<SyntaxTreeNode>,
    },
}

/// The mathematical value of a tree node: numbers as reduced
/// numerator/denominator pairs, names as character sequences.
pub ghost enum TreeValue {
    Number { n: int, d: int, pos: Position },
    Variable { name: Seq<char>, pos: Position },
    Unary { op: UnaryOperatorToken, op_pos: Position, operand: Box<TreeValue> },
    Binary {
        op: BinaryOperatorToken,
        op_pos: Position,
        left: Box<TreeValue>,
        right: Box<TreeValue>,
    },
    Function {
        name: FunctionNameToken,
        name_pos: Position,
        operands: Seq<TreeValue>,
        operands_pos: Position,
    },
    Parenthesized { open_pos: Position, close_pos: Position, inner: Box<TreeValue> },
}

/// The mathematical value of a tree node.
pub open spec fn node_value(node: SyntaxTreeNode) -> TreeValue
    decreases node, 0int,
{
    match node {
        SyntaxTreeNode::Number { value, position } => TreeValue::Number {
            n: rat_numer(value),
            d: rat_denom(value),
            pos: position,
        },
        SyntaxTreeNode::Variable { name, position } => TreeValue::Variable {
            name: name@,
            pos: position,
        },
        SyntaxTreeNode::Unary { operator, operator_position, operand } => TreeValue::Unary {
            op: operator,
            op_pos: operator_position,
            operand: Box::new(node_value(*operand)),
        },
        SyntaxTreeNode::Binary { operator, operator_position, operand_1, operand_2 } => {
            TreeValue::Binary {
                op: operator,
                op_pos: operator_position,
                left: Box::new(node_value(*operand_1)),
                right: Box::new(node_value(*operand_2)),
            }
        },
        SyntaxTreeNode::Function {
            function_name,
            function_name_position,
            operands,
            operands_position,
        } => TreeValue::Function {
            name: function_name,
            name_pos: function_name_position,
            operands: nodes_values(operands@, 0),
            operands_pos: operands_position,
        },
        SyntaxTreeNode::Parenthesized { open_position, close_position, node } => {
            TreeValue::Parenthesized {
                open_pos: open_position,
                close_pos: close_position,
                inner: Box::new(node_value(*node)),
            }
        },
    }
}

/// The mathematical values of a node sequence, from index `i` on.
pub open spec fn nodes_values(nodes: Seq<SyntaxTreeNode>, i: int) -> Seq<TreeValue>
    decreases nodes, nodes.len() - i,
{
    if i < 0 || i >= nodes.len() {
        Seq::empty()
    } else {
        seq![node_value(nodes[i])] + nodes_values(nodes, i + 1)
    }
}

/// `nodes_values` from index `i` is the mapped suffix.
pub proof fn lemma_nodes_values_map(nodes: Seq<SyntaxTreeNode>, i: int)
    requires
        0 <= i <= nodes.len(),
    ensures
        nodes_values(nodes, i) == nodes.skip(i).map_values(|n: SyntaxTreeNode| node_value(n)),
    decreases nodes.len() - i,
{
    if i >= nodes.len() {
        assert(nodes_values(nodes, i) =~= nodes.skip(i).map_values(
            |n: SyntaxTreeNode| node_value(n),
        ));
    } else {
        lemma_nodes_values_map(nodes, i + 1);
        assert(nodes.skip(i + 1).map_values(|n: SyntaxTreeNode| node_value(n)) =~= nodes.skip(
            i,
        ).map_values(|n: SyntaxTreeNode| node_value(n)).drop_first());
        assert(nodes_values(nodes, i) =~= nodes.skip(i).map_values(
            |n: SyntaxTreeNode| node_value(n),
        ));
    }
}

/// The span a whole subtree covers.
pub open spec fn tree_pos(t: TreeValue) -> Position
    decreases t,
{
    match t {
        TreeValue::Number { pos, .. } => pos,
        TreeValue::Variable { pos, .. } => pos,
        TreeValue::Unary { op_pos, operand, .. } => spec_span(op_pos, tree_pos(*operand)),
        TreeValue::Binary { op_pos, left, right, .. } => spec_span(
            op_pos,
            spec_span(tree_pos(*left), tree_pos(*right)),
        ),
        TreeValue::Function { name_pos, operands_pos, .. } => spec_span(name_pos, operands_pos),
        TreeValue::Parenthesized { open_pos, close_pos, .. } => spec_span(open_pos, close_pos),
    }
}

/// Whether a span's end stays within `usize` arithmetic.
pub open spec fn pos_ok(p: Position) -> bool {
    p.start + p.width <= usize::MAX
}

/// All spans stored in a tree stay within `usize` arithmetic.
pub open spec fn tree_wf(t: TreeValue) -> bool
    decreases t, 0int,
{
    match t {
        TreeValue::Number { n, d, pos } => pos_ok(pos) && crate::numbers::pair_wf(n, d),
        TreeValue::Variable { pos, .. } => pos_ok(pos),
        TreeValue::Unary { op_pos, operand, .. } => pos_ok(op_pos) && tree_wf(*operand),
        TreeValue::Binary { op_pos, left, right, .. } => pos_ok(op_pos) && tree_wf(*left)
            && tree_wf(*right),
        TreeValue::Function { name_pos, operands, operands_pos, .. } => pos_ok(name_pos) && pos_ok(
            operands_pos,
        ) && trees_wf(operands, 0),
        TreeValue::Parenthesized { open_pos, close_pos, inner } => pos_ok(open_pos) && pos_ok(
            close_pos,
        ) && tree_wf(*inner),
    }
}

/// All spans stored in the trees from index `i` on stay within `usize`.
pub open spec fn trees_wf(ts: Seq<TreeValue>, i: int) -> bool
    decreases ts, ts.len() - i,
{
    if i < 0 || i >= ts.len() {
        true
    } else {
        tree_wf(ts[i]) && trees_wf(ts, i + 1)
    }
}

/// The span a well-formed tree covers stays within `usize`.
pub proof fn lemma_tree_pos_ok(t: TreeValue)
    requires
        tree_wf(t),
    ensures
        pos_ok(tree_pos(t)),
    decreases t,
{
    match t {
        TreeValue::Unary { op_pos, operand, .. } => {
            lemma_tree_pos_ok(*operand);
        },
        TreeValue::Binary { op_pos, left, right, .. } => {
            lemma_tree_pos_ok(*left);
            lemma_tree_pos_ok(*right);
        },
        _ => {},
    }
}

impl SyntaxTreeNode {
    /// The span this whole subtree covers.
    pub fn position(&self) -> (r: Position)
        requires
            tree_wf(node_value(*self)),
        ensures
            r == tree_pos(node_value(*self)),
        decreases *self,
    {
        proof {
            lemma_tree_pos_ok(node_value(*self));
        }
        match self {
            SyntaxTreeNode::Number { position, .. } => *position,
            SyntaxTreeNode::Variable { position, .. } => *position,
            SyntaxTreeNode::Unary { operator_position, operand, .. } => {
                proof {
                    lemma_tree_pos_ok(node_value(**operand));
                }
                Position::from_span(*operator_position, operand.position())
            },
            SyntaxTreeNode::Binary { operator_position, operand_1, operand_2, .. } => {
                proof {
                    lemma_tree_pos_ok(node_value(**operand_1));
                    lemma_tree_pos_ok(node_value(**operand_2));
                }
                Position::from_span(
                    *operator_position,
                    Position::from_span(operand_1.position(), operand_2.position()),
                )
            },
            SyntaxTreeNode::Function { function_name_position, operands_position, .. } => {
                Position::from_span(*function_name_position, *operands_position)
            },
            SyntaxTreeNode::Parenthesized { open_position, close_position, .. } => {
                Position::from_span(*open_position, *close_position)
            },
        }
    }
}

// ---------------------------------------------------------------------------
// The parse, as mathematics
// ---------------------------------------------------------------------------

/// Why reading one expression stopped.
#[derive(Clone, Copy, Debug, PartialEq, Eq, Structural)]
pub enum ExpressionEnd {
    Comma(Position),
    CloseParen(Position),
    InputEmpty,
}

/// One entry of the flat alternating list an expression is reduced from.
pub ghost enum ItemValue {
    Operand(TreeValue),
    Operator(BinaryOperatorToken, Position),
}

/// What one read from the token stream produced.
pub ghost enum ReadValue {
    Operand(TreeValue),
    Operator(BinaryOperatorToken, Position),
    End(ExpressionEnd),
}

/// A positioned syntax error.
pub ghost struct ErrValue {
    pub err: SyntaxErrorValue,
    pub pos: Position,
}

/// The error a spec-level parse reports when its fuel runs out; the
/// executable parser always supplies enough fuel to make this unreachable.
pub open spec fn fuel_error() -> ErrValue {
    ErrValue { err: SyntaxErrorValue::NoInput, pos: Position { start: 0, width: 0 } }
}

/// Reads one operand or binary operator from the tokens at `i`: a number or
/// variable directly; a unary operator, open parenthesis or function name
/// together with everything its operand needs; a comma, close parenthesis or
/// the input's end stops the expression.
pub open spec fn sp_read_ooo(ts: Seq<(TokenValue, Position)>, i: int, fuel: nat) -> Result<
    (ReadValue, int),
    ErrValue,
>
    decreases fuel,
{
    if fuel == 0 {
        Err(fuel_error())
    } else if i >= ts.len() {
        Ok((ReadValue::End(ExpressionEnd::InputEmpty), i))
    } else {
        let tok = ts[i].0;
        let pos = ts[i].1;
        match tok {
            TokenValue::AssignmentOperator => Err(
                ErrValue { err: SyntaxErrorValue::UnexpectedToken(tok), pos },
            ),
            TokenValue::Comma => Ok((ReadValue::End(ExpressionEnd::Comma(pos)), i + 1)),
            TokenValue::CloseParen => Ok((ReadValue::End(ExpressionEnd::CloseParen(pos)), i + 1)),
            TokenValue::BinaryOperator(op) => Ok((ReadValue::Operator(op, pos), i + 1)),
            TokenValue::Variable(name) => Ok(
                (ReadValue::Operand(TreeValue::Variable { name, pos }), i + 1),
            ),
            TokenValue::Number { n, d } => Ok(
                (ReadValue::Operand(TreeValue::Number { n, d, pos }), i + 1),
            ),
            TokenValue::UnaryOperator(op) => match sp_read_unary(
                ts,
                i + 1,
                (fuel - 1) as nat,
                op,
                pos,
            ) {
                Ok((node, j)) => Ok((ReadValue::Operand(node), j)),
                Err(e) => Err(e),
            },
            TokenValue::OpenParen => match sp_read_paren(ts, i + 1, (fuel - 1) as nat, pos) {
                Ok((node, j)) => Ok((ReadValue::Operand(node), j)),
                Err(e) => Err(e),
            },
            TokenValue::Function(f) => match sp_read_function(ts, i + 1, (fuel - 1) as nat, f, pos) {
                Ok((node, j)) => Ok((ReadValue::Operand(node), j)),
                Err(e) => Err(e),
            },
        }
    }
}

/// Reads one operand, reinterpreting a leading `-` as negation.
pub open spec fn sp_read_operand(ts: Seq<(TokenValue, Position)>, i: int, fuel: nat) -> Result<
    (ReadValue, int),
    ErrValue,
>
    decreases fuel,
{
    if fuel == 0 {
        Err(fuel_error())
    } else {
        match sp_read_ooo(ts, i, (fuel - 1) as nat) {
            Err(e) => Err(e),
            Ok((ReadValue::Operand(node), j)) => Ok((ReadValue::Operand(node), j)),
            Ok((ReadValue::Operator(op, pos), j)) => {
                if op == BinaryOperatorToken::Subtract {
                    match sp_read_unary(ts, j, (fuel - 1) as nat, UnaryOperatorToken::Negate, pos) {
                        Ok((node, j2)) => Ok((ReadValue::Operand(node), j2)),
                        Err(e) => Err(e),
                    }
                } else {
                    Err(
                        ErrValue {
                            err: SyntaxErrorValue::UnexpectedToken(TokenValue::BinaryOperator(op)),
                            pos,
                        },
                    )
                }
            },
            Ok((ReadValue::End(end), j)) => Ok((ReadValue::End(end), j)),
        }
    }
}

/// Reads the single operand a unary operator requires.
pub open spec fn sp_read_unary(
    ts: Seq<(TokenValue, Position)>,
    i: int,
    fuel: nat,
    op: UnaryOperatorToken,
    op_pos: Position,
) -> Result<(TreeValue, int), ErrValue>
    decreases fuel,
{
    if fuel == 0 {
        Err(fuel_error())
    } else {
        match sp_read_operand(ts, i, (fuel - 1) as nat) {
            Err(e) => Err(e),
            Ok((ReadValue::Operand(operand), j)) => Ok(
                (TreeValue::Unary { op, op_pos, operand: Box::new(operand) }, j),
            ),
            Ok((_, j)) => Err(
                ErrValue {
                    err: SyntaxErrorValue::MissingOperand(TokenValue::UnaryOperator(op)),
                    pos: op_pos,
                },
            ),
        }
    }
}

/// Reads the expression a `(` opened, which must close with `)`.
pub open spec fn sp_read_paren(
    ts: Seq<(TokenValue, Position)>,
    i: int,
    fuel: nat,
    open_pos: Position,
) -> Result<(TreeValue, int), ErrValue>
    decreases fuel,
{
    if fuel == 0 {
        Err(fuel_error())
    } else {
        match sp_read_expression(ts, i, (fuel - 1) as nat) {
            Err(e) => Err(e),
            Ok(((root, end), j)) => match end {
                ExpressionEnd::CloseParen(close_pos) => match root {
                    Some(node) => Ok(
                        (
                            TreeValue::Parenthesized {
                                open_pos,
                                close_pos,
                                inner: Box::new(node),
                            },
                            j,
                        ),
                    ),
                    None => Err(
                        ErrValue {
                            err: SyntaxErrorValue::EmptyParens,
                            pos: spec_span(open_pos, close_pos),
                        },
                    ),
                },
                ExpressionEnd::Comma(p) => Err(
                    ErrValue { err: SyntaxErrorValue::UnexpectedToken(TokenValue::Comma), pos: p },
                ),
                ExpressionEnd::InputEmpty => Err(
                    ErrValue { err: SyntaxErrorValue::MismatchedOpenParen, pos: open_pos },
                ),
            },
        }
    }
}

/// Reads a function's arguments: either a parenthesized comma-separated list
/// (any argument count, arity is evaluation's concern) or one trailing
/// operand.
pub open spec fn sp_read_function(
    ts: Seq<(TokenValue, Position)>,
    i: int,
    fuel: nat,
    name: FunctionNameToken,
    name_pos: Position,
) -> Result<(TreeValue, int), ErrValue>
    decreases fuel,
{
    if fuel == 0 {
        Err(fuel_error())
    } else if i >= ts.len() {
        Err(
            ErrValue {
                err: SyntaxErrorValue::FunctionWithoutParensOrArgument(name),
                pos: name_pos,
            },
        )
    } else if ts[i].0 is OpenParen {
        let open_pos = ts[i].1;
        match sp_read_args(ts, i + 1, (fuel - 1) as nat, Seq::empty(), None, open_pos) {
            Err(e) => Err(e),
            Ok((operands, close_pos, j)) => Ok(
                (
                    TreeValue::Function {
                        name,
                        name_pos,
                        operands,
                        operands_pos: spec_span(open_pos, close_pos),
                    },
                    j,
                ),
            ),
        }
    } else {
        match sp_read_operand(ts, i, (fuel - 1) as nat) {
            Err(e) => Err(e),
            Ok((ReadValue::Operand(operand), j)) => Ok(
                (
                    TreeValue::Function {
                        name,
                        name_pos,
                        operands: seq![operand],
                        operands_pos: tree_pos(operand),
                    },
                    j,
                ),
            ),
            Ok((_, j)) => Err(
                ErrValue {
                    err: SyntaxErrorValue::FunctionWithoutParensOrArgument(name),
                    pos: name_pos,
                },
            ),
        }
    }
}

/// Reads a parenthesized argument list up to its closing `)`: expressions
/// separated by commas, `acc` holding those already read and `last_comma` the
/// span of a comma still waiting for an operand.
pub open spec fn sp_read_args(
    ts: Seq<(TokenValue, Position)>,
    i: int,
    fuel: nat,
    acc: Seq<TreeValue>,
    last_comma: Option<Position>,
    open_pos: Position,
) -> Result<(Seq<TreeValue>, Position, int), ErrValue>
    decreases fuel,
{
    if fuel == 0 {
        Err(fuel_error())
    } else {
        match sp_read_expression(ts, i, (fuel - 1) as nat) {
            Err(e) => Err(e),
            Ok(((Some(operand), end), j)) => match end {
                ExpressionEnd::Comma(p) => sp_read_args(
                    ts,
                    j,
                    (fuel - 1) as nat,
                    acc.push(operand),
                    Some(p),
                    open_pos,
                ),
                ExpressionEnd::CloseParen(p) => Ok((acc.push(operand), p, j)),
                ExpressionEnd::InputEmpty => Err(
                    ErrValue { err: SyntaxErrorValue::MismatchedOpenParen, pos: open_pos },
                ),
            },
            Ok(((None, end), j)) => match last_comma {
                Some(comma_pos) => Err(
                    ErrValue { err: SyntaxErrorValue::CommaWithoutOperandAfter, pos: comma_pos },
                ),
                None => match end {
                    ExpressionEnd::Comma(p) => Err(
                        ErrValue { err: SyntaxErrorValue::CommaWithoutOperandBefore, pos: p },
                    ),
                    ExpressionEnd::CloseParen(p) => Ok((acc, p, j)),
                    ExpressionEnd::InputEmpty => Err(
                        ErrValue { err: SyntaxErrorValue::MismatchedOpenParen, pos: open_pos },
                    ),
                },
            },
        }
    }
}

/// Gathers the flat run of operands and binary operators belonging to one
/// expression, stopping at a comma, a close parenthesis or the input's end.
pub open spec fn sp_gather(
    ts: Seq<(TokenValue, Position)>,
    i: int,
    fuel: nat,
    acc: Seq<ItemValue>,
) -> Result<(Seq<ItemValue>, ExpressionEnd, int), ErrValue>
    decreases fuel,
{
    if fuel == 0 {
        Err(fuel_error())
    } else {
        match sp_read_ooo(ts, i, (fuel - 1) as nat) {
            Err(e) => Err(e),
            Ok((ReadValue::Operand(node), j)) => sp_gather(
                ts,
                j,
                (fuel - 1) as nat,
                acc.push(ItemValue::Operand(node)),
            ),
            Ok((ReadValue::Operator(op, pos), j)) => sp_gather(
                ts,
                j,
                (fuel - 1) as nat,
                acc.push(ItemValue::Operator(op, pos)),
            ),
            Ok((ReadValue::End(end), j)) => Ok((acc, end, j)),
        }
    }
}

/// Whether an item is the subtraction operator.
pub open spec fn is_subtract_item(item: ItemValue) -> bool {
    item matches ItemValue::Operator(op, _) && op == BinaryOperatorToken::Subtract
}

/// The right-to-left negation-folding pass: a `-` that stands at the start of
/// the list or right after another operator, immediately before an operand,
/// is folded into a negation of that operand. This is the only place a
/// subtraction token is reinterpreted as negation.
pub open spec fn sp_fold_negations(items: Seq<ItemValue>) -> Seq<ItemValue>
    decreases items.len(),
{
    if items.len() == 0 {
        items
    } else {
        let last = items.last();
        if last is Operand && items.len() >= 2 && is_subtract_item(items[items.len() - 2]) && (
        items.len() < 3 || items[items.len() - 3] is Operator) {
            let op_pos = items[items.len() - 2]->Operator_1;
            let folded = TreeValue::Unary {
                op: UnaryOperatorToken::Negate,
                op_pos,
                operand: Box::new(last->Operand_0),
            };
            sp_fold_negations(
                items.take(items.len() - 2).push(ItemValue::Operand(folded)),
            )
        } else {
            sp_fold_negations(items.drop_last()).push(last)
        }
    }
}

/// Whether an item is a binary operator of the given precedence tier.
pub open spec fn is_tier_item(item: ItemValue, tier: int) -> bool {
    item matches ItemValue::Operator(op, _) && crate::token::spec_tier_of(op) == tier
}

/// One left-to-right precedence pass: every run `operand, operator-in-tier,
/// operand` is combined into a binary node in place, so same-tier operators
/// fold left-associatively.
pub open spec fn sp_reduce_tier(items: Seq<ItemValue>, tier: int) -> Seq<ItemValue>
    decreases items.len(),
{
    if items.len() == 0 {
        items
    } else {
        let first = items[0];
        if first is Operand && items.len() >= 3 && is_tier_item(items[1], tier) && items[2]
            is Operand {
            let op = items[1]->Operator_0;
            let op_pos = items[1]->Operator_1;
            let combined = TreeValue::Binary {
                op,
                op_pos,
                left: Box::new(first->Operand_0),
                right: Box::new(items[2]->Operand_0),
            };
            sp_reduce_tier(seq![ItemValue::Operand(combined)] + items.skip(3), tier)
        } else {
            seq![first] + sp_reduce_tier(items.drop_first(), tier)
        }
    }
}

/// The first `t` precedence passes, tightest tier first.
pub open spec fn sp_reduce_upto(items: Seq<ItemValue>, t: int) -> Seq<ItemValue>
    decreases t,
{
    if t <= 0 {
        items
    } else {
        sp_reduce_tier(sp_reduce_upto(items, t - 1), t - 1)
    }
}

/// All four precedence passes, tightest tier first.
pub open spec fn sp_reduce_all(items: Seq<ItemValue>) -> Seq<ItemValue> {
    sp_reduce_upto(items, 4)
}

/// What remains after all reduction passes: exactly one operand is the
/// expression, nothing is "no expression" (the caller decides whether that is
/// an error), a leading or dangling operator misses an operand, and two
/// adjacent operands miss an operator between them.
pub open spec fn sp_finalize(items: Seq<ItemValue>) -> Result<Option<TreeValue>, ErrValue> {
    if items.len() == 0 {
        Ok(None)
    } else if items[0] is Operator {
        Err(
            ErrValue {
                err: SyntaxErrorValue::MissingOperand(
                    TokenValue::BinaryOperator(items[0]->Operator_0),
                ),
                pos: items[0]->Operator_1,
            },
        )
    } else if items.len() == 1 {
        Ok(Some(items[0]->Operand_0))
    } else if items[1] is Operand {
        Err(
            ErrValue {
                err: SyntaxErrorValue::MissingOperator,
                pos: spec_between(tree_pos(items[0]->Operand_0), tree_pos(items[1]->Operand_0)),
            },
        )
    } else {
        Err(
            ErrValue {
                err: SyntaxErrorValue::MissingOperand(
                    TokenValue::BinaryOperator(items[1]->Operator_0),
                ),
                pos: items[1]->Operator_1,
            },
        )
    }
}

/// Reads one whole expression: gather, fold negations, reduce by precedence.
pub open spec fn sp_read_expression(ts: Seq<(TokenValue, Position)>, i: int, fuel: nat) -> Result<
    ((Option<TreeValue>, ExpressionEnd), int),
    ErrValue,
>
    decreases fuel,
{
    if fuel == 0 {
        Err(fuel_error())
    } else {
        match sp_gather(ts, i, (fuel - 1) as nat, Seq::empty()) {
            Err(e) => Err(e),
            Ok((items, end, j)) => match sp_finalize(
                sp_reduce_all(sp_fold_negations(items)),
            ) {
                Err(e) => Err(e),
                Ok(root) => Ok(((root, end), j)),
            },
        }
    }
}

/// The mathematical value of a whole parse: the optional assignment target
/// and the root of the expression tree.
pub ghost struct SyntaxTreeValue {
    pub result_var: Option<(Seq<char>, Position)>,
    pub root: TreeValue,
}

/// The fuel that keeps every spec-level read below from running out.
pub open spec fn parse_fuel(remaining: int) -> nat {
    (6 * remaining + 6) as nat
}

/// What parsing a whole token sequence yields. The first two tokens, when
/// they are exactly a variable and the assignment operator, become the
/// assignment target; the rest must form one expression that uses up all the
/// input.
pub open spec fn sp_parse(ts: Seq<(TokenValue, Position)>) -> Result<SyntaxTreeValue, ErrValue> {
    let has_target = ts.len() >= 2 && ts[0].0 is Variable && ts[1].0 is AssignmentOperator;
    let start: int = if has_target {
        2
    } else {
        0
    };
    let result_var: Option<(Seq<char>, Position)> = if has_target {
        Some((ts[0].0->Variable_0, ts[0].1))
    } else {
        None
    };
    match sp_read_expression(ts, start, parse_fuel(ts.len() - start)) {
        Err(e) => Err(e),
        Ok(((root, end), j)) => match end {
            ExpressionEnd::Comma(p) => Err(
                ErrValue { err: SyntaxErrorValue::UnexpectedToken(TokenValue::Comma), pos: p },
            ),
            ExpressionEnd::CloseParen(p) => Err(
                ErrValue { err: SyntaxErrorValue::MismatchedCloseParen, pos: p },
            ),
            ExpressionEnd::InputEmpty => match root {
                None => Err(
                    ErrValue {
                        err: SyntaxErrorValue::NoInput,
                        pos: Position { start: 0, width: 0 },
                    },
                ),
                Some(r) => Ok(SyntaxTreeValue { result_var, root: r }),
            },
        },
    }
}

// ---------------------------------------------------------------------------
// The executable parser
// ---------------------------------------------------------------------------

/// Whether every token span stays within `usize` arithmetic and every number
/// token holds a canonical reduced pair, as the tokenizer guarantees.
pub open spec fn tokens_wf(ts: Seq<Positioned<Token>>) -> bool {
    &&& forall|k: int| 0 <= k < ts.len() ==> pos_ok(#[trigger] ts[k].position)
    &&& forall|k: int|
        0 <= k < ts.len() ==> match (#[trigger] ts[k].value)@ {
            TokenValue::Number { n, d } => crate::numbers::pair_wf(n, d),
            _ => true,
        }
}

/// One entry of the flat alternating list an expression is reduced from.
pub enum OperandOrOperator {
    Operand(SyntaxTreeNode),
    Operator(Positioned<BinaryOperatorToken>),
}

/// The mathematical value of one list entry.
pub open spec fn item_value(item: OperandOrOperator) -> ItemValue {
    match item {
        OperandOrOperator::Operand(n) => ItemValue::Operand(node_value(n)),
        OperandOrOperator::Operator(p) => ItemValue::Operator(p.value, p.position),
    }
}

/// The mathematical values of a whole entry list.
pub open spec fn items_values(items: Seq<OperandOrOperator>) -> Seq<ItemValue> {
    items.map_values(|it: OperandOrOperator| item_value(it))
}

/// All spans in one list entry stay within `usize`.
pub open spec fn item_wf(item: ItemValue) -> bool {
    match item {
        ItemValue::Operand(t) => tree_wf(t),
        ItemValue::Operator(_, p) => pos_ok(p),
    }
}

/// What one read from the token stream produced.
pub enum InputReadResult {
    Operand(SyntaxTreeNode),
    Operator(Positioned<BinaryOperatorToken>),
    End(ExpressionEnd),
}

/// The mathematical value of one read.
pub open spec fn read_value(r: InputReadResult) -> ReadValue {
    match r {
        InputReadResult::Operand(n) => ReadValue::Operand(node_value(n)),
        InputReadResult::Operator(p) => ReadValue::Operator(p.value, p.position),
        InputReadResult::End(e) => ReadValue::End(e),
    }
}

/// The position an expression end carries stays within `usize`.
pub open spec fn end_wf(end: ExpressionEnd) -> bool {
    match end {
        ExpressionEnd::Comma(p) => pos_ok(p),
        ExpressionEnd::CloseParen(p) => pos_ok(p),
        ExpressionEnd::InputEmpty => true,
    }
}

/// Reads one operand or binary operator, together with everything a nested
/// operand needs.
#[verifier::loop_isolation(false)]
fn read_operand_or_operator(
    input: &Vec<Positioned<Token>>,
    cursor: &mut usize,
    Ghost(fuel): Ghost<nat>,
) -> (r: Result<InputReadResult, Positioned<SyntaxError>>)
    requires
        *old(cursor) <= input@.len(),
        tokens_wf(input@),
        fuel >= 6 * (input@.len() - *old(cursor)) + 1,
    ensures
        *old(cursor) <= *final(cursor) <= input@.len(),
        match sp_read_ooo(tokens_view(input@), *old(cursor) as int, fuel) {
            Ok((rv, j)) => r matches Ok(x) && read_value(x) == rv && *final(cursor) == j && (rv
                matches ReadValue::Operand(t) ==> tree_wf(t)) && (rv matches ReadValue::End(e)
                ==> end_wf(e)) && (rv matches ReadValue::Operator(_, p) ==> pos_ok(p)) && (!(rv
                matches ReadValue::End(ExpressionEnd::InputEmpty)) ==> *final(cursor) > *old(
                cursor,
            )),
            Err(e) => r matches Err(pe) && pe.value@ == e.err && pe.position == e.pos,
        },
    decreases fuel,
{
    let ghost ts = tokens_view(input@);
    if *cursor >= input.len() {
        return Ok(InputReadResult::End(ExpressionEnd::InputEmpty));
    }
    let pt = &input[*cursor];
    let pos = pt.position;
    proof {
        assert(ts[*cursor as int] == (pt.value@, pt.position));
    }
    match &pt.value {
        Token::AssignmentOperator => Err(
            Positioned::new(SyntaxError::UnexpectedToken(Token::AssignmentOperator), pos),
        ),
        Token::Comma => {
            *cursor = *cursor + 1;
            Ok(InputReadResult::End(ExpressionEnd::Comma(pos)))
        },
        Token::CloseParen => {
            *cursor = *cursor + 1;
            Ok(InputReadResult::End(ExpressionEnd::CloseParen(pos)))
        },
        Token::BinaryOperator(op) => {
            let o = *op;
            *cursor = *cursor + 1;
            Ok(InputReadResult::Operator(Positioned::new(o, pos)))
        },
        Token::Variable(name) => {
            let n = String::from_str(name.as_str());
            *cursor = *cursor + 1;
            Ok(InputReadResult::Operand(SyntaxTreeNode::Variable { name: n, position: pos }))
        },
        Token::Number(v) => {
            let value = rat_clone(v);
            *cursor = *cursor + 1;
            Ok(InputReadResult::Operand(SyntaxTreeNode::Number { value, position: pos }))
        },
        Token::UnaryOperator(op) => {
            let o = *op;
            *cursor = *cursor + 1;
            match read_unary_node(input, cursor, o, pos, Ghost((fuel - 1) as nat)) {
                Ok(node) => Ok(InputReadResult::Operand(node)),
                Err(e) => Err(e),
            }
        },
        Token::OpenParen => {
            *cursor = *cursor + 1;
            match read_parenthesized_node(input, cursor, pos, Ghost((fuel - 1) as nat)) {
                Ok(node) => Ok(InputReadResult::Operand(node)),
                Err(e) => Err(e),
            }
        },
        Token::Function(f) => {
            let ff = *f;
            *cursor = *cursor + 1;
            match read_function_node(input, cursor, ff, pos, Ghost((fuel - 1) as nat)) {
                Ok(node) => Ok(InputReadResult::Operand(node)),
                Err(e) => Err(e),
            }
        },
    }
}

/// Reads one operand, reinterpreting a leading `-` as negation.
#[verifier::loop_isolation(false)]
fn read_operand(
    input: &Vec<Positioned<Token>>,
    cursor: &mut usize,
    Ghost(fuel): Ghost<nat>,
) -> (r: Result<InputReadResult, Positioned<SyntaxError>>)
    requires
        *old(cursor) <= input@.len(),
        tokens_wf(input@),
        fuel >= 6 * (input@.len() - *old(cursor)) + 2,
    ensures
        *old(cursor) <= *final(cursor) <= input@.len(),
        match sp_read_operand(tokens_view(input@), *old(cursor) as int, fuel) {
            Ok((rv, j)) => r matches Ok(x) && read_value(x) == rv && *final(cursor) == j && (rv
                matches ReadValue::Operand(t) ==> tree_wf(t)) && (rv matches ReadValue::End(e)
                ==> end_wf(e)) && !(rv is Operator),
            Err(e) => r matches Err(pe) && pe.value@ == e.err && pe.position == e.pos,
        },
    decreases fuel,
{
    match read_operand_or_operator(input, cursor, Ghost((fuel - 1) as nat)) {
        Err(e) => Err(e),
        Ok(InputReadResult::Operand(node)) => Ok(InputReadResult::Operand(node)),
        Ok(InputReadResult::Operator(op)) => {
            if matches!(op.value, BinaryOperatorToken::Subtract) {
                match read_unary_node(
                    input,
                    cursor,
                    UnaryOperatorToken::Negate,
                    op.position,
                    Ghost((fuel - 1) as nat),
                ) {
                    Ok(node) => Ok(InputReadResult::Operand(node)),
                    Err(e) => Err(e),
                }
            } else {
                Err(
                    Positioned::new(
                        SyntaxError::UnexpectedToken(Token::BinaryOperator(op.value)),
                        op.position,
                    ),
                )
            }
        },
        Ok(InputReadResult::End(end)) => Ok(InputReadResult::End(end)),
    }
}

/// Reads the single operand a unary operator requires.
#[verifier::loop_isolation(false)]
fn read_unary_node(
    input: &Vec<Positioned<Token>>,
    cursor: &mut usize,
    operator: UnaryOperatorToken,
    operator_position: Position,
    Ghost(fuel): Ghost<nat>,
) -> (r: Result<SyntaxTreeNode, Positioned<SyntaxError>>)
    requires
        *old(cursor) <= input@.len(),
        tokens_wf(input@),
        pos_ok(operator_position),
        fuel >= 6 * (input@.len() - *old(cursor)) + 3,
    ensures
        *old(cursor) <= *final(cursor) <= input@.len(),
        match sp_read_unary(
            tokens_view(input@),
            *old(cursor) as int,
            fuel,
            operator,
            operator_position,
        ) {
            Ok((tv, j)) => r matches Ok(node) && node_value(node) == tv && tree_wf(tv)
                && *final(cursor) == j,
            Err(e) => r matches Err(pe) && pe.value@ == e.err && pe.position == e.pos,
        },
    decreases fuel,
{
    match read_operand(input, cursor, Ghost((fuel - 1) as nat)) {
        Err(e) => Err(e),
        Ok(InputReadResult::Operand(operand)) => Ok(
            SyntaxTreeNode::Unary {
                operator,
                operator_position,
                operand: Box::new(operand),
            },
        ),
        Ok(_) => Err(
            Positioned::new(
                SyntaxError::MissingOperand(Token::UnaryOperator(operator)),
                operator_position,
            ),
        ),
    }
}

/// Reads the expression a `(` opened, which must close with `)`.
#[verifier::loop_isolation(false)]
fn read_parenthesized_node(
    input: &Vec<Positioned<Token>>,
    cursor: &mut usize,
    open_position: Position,
    Ghost(fuel): Ghost<nat>,
) -> (r: Result<SyntaxTreeNode, Positioned<SyntaxError>>)
    requires
        *old(cursor) <= input@.len(),
        tokens_wf(input@),
        pos_ok(open_position),
        fuel >= 6 * (input@.len() - *old(cursor)) + 4,
    ensures
        *old(cursor) <= *final(cursor) <= input@.len(),
        match sp_read_paren(tokens_view(input@), *old(cursor) as int, fuel, open_position) {
            Ok((tv, j)) => r matches Ok(node) && node_value(node) == tv && tree_wf(tv)
                && *final(cursor) == j,
            Err(e) => r matches Err(pe) && pe.value@ == e.err && pe.position == e.pos,
        },
    decreases fuel,
{
    match read_expression(input, cursor, Ghost((fuel - 1) as nat)) {
        Err(e) => Err(e),
        Ok((maybe_node, end)) => match end {
            ExpressionEnd::CloseParen(close_position) => match maybe_node {
                Some(node) => Ok(
                    SyntaxTreeNode::Parenthesized {
                        open_position,
                        close_position,
                        node: Box::new(node),
                    },
                ),
                None => Err(
                    Positioned::new_span(SyntaxError::EmptyParens, open_position, close_position),
                ),
            },
            ExpressionEnd::Comma(p) => Err(
                Positioned::new(SyntaxError::UnexpectedToken(Token::Comma), p),
            ),
            ExpressionEnd::InputEmpty => Err(
                Positioned::new(SyntaxError::MismatchedOpenParen, open_position),
            ),
        },
    }
}

/// Whether an entry is an operand.
fn exec_is_operand(item: &OperandOrOperator) -> (r: bool)
    ensures
        r == (item_value(*item) is Operand),
{
    match item {
        OperandOrOperator::Operand(_) => true,
        OperandOrOperator::Operator(_) => false,
    }
}

/// Whether an entry is the subtraction operator.
fn exec_is_subtract(item: &OperandOrOperator) -> (r: bool)
    ensures
        r == is_subtract_item(item_value(*item)),
{
    match item {
        OperandOrOperator::Operator(p) => matches!(p.value, BinaryOperatorToken::Subtract),
        OperandOrOperator::Operand(_) => false,
    }
}

/// Whether an entry is a binary operator of the given precedence tier.
fn exec_is_tier_op(item: &OperandOrOperator, tier: u8) -> (r: bool)
    ensures
        r == is_tier_item(item_value(*item), tier as int),
{
    match item {
        OperandOrOperator::Operator(p) => p.value.tier() == tier,
        OperandOrOperator::Operand(_) => false,
    }
}

/// Reads a function's arguments: a parenthesized comma-separated list, or one
/// trailing operand when no parenthesis follows the name.
#[verifier::loop_isolation(false)]
#[verifier::rlimit(60)]
fn read_function_node(
    input: &Vec<Positioned<Token>>,
    cursor: &mut usize,
    function_name: FunctionNameToken,
    function_name_position: Position,
    Ghost(fuel): Ghost<nat>,
) -> (r: Result<SyntaxTreeNode, Positioned<SyntaxError>>)
    requires
        *old(cursor) <= input@.len(),
        tokens_wf(input@),
        pos_ok(function_name_position),
        fuel >= 6 * (input@.len() - *old(cursor)) + 4,
    ensures
        *old(cursor) <= *final(cursor) <= input@.len(),
        match sp_read_function(
            tokens_view(input@),
            *old(cursor) as int,
            fuel,
            function_name,
            function_name_position,
        ) {
            Ok((tv, j)) => r matches Ok(node) && node_value(node) == tv && tree_wf(tv)
                && *final(cursor) == j,
            Err(e) => r matches Err(pe) && pe.value@ == e.err && pe.position == e.pos,
        },
    decreases fuel,
{
    let ghost ts = tokens_view(input@);
    if *cursor >= input.len() {
        return Err(
            Positioned::new(
                SyntaxError::FunctionWithoutParensOrArgument(function_name),
                function_name_position,
            ),
        );
    }
    let pt = &input[*cursor];
    let open_position = pt.position;
    proof {
        assert(ts[*cursor as int] == (pt.value@, pt.position));
    }
    if !matches!(&pt.value, Token::OpenParen) {
        // A function without parentheses takes exactly one trailing operand.
        return match read_operand(input, cursor, Ghost((fuel - 1) as nat)) {
            Err(e) => Err(e),
            Ok(InputReadResult::Operand(operand)) => {
                proof {
                    lemma_tree_pos_ok(node_value(operand));
                }
                let ghost opv = node_value(operand);
                let operands_position = operand.position();
                let ops = vec![operand];
                proof {
                    assert(ops@.len() == 1 && node_value(ops@[0]) == opv);
                    assert(nodes_values(ops@, 1) =~= Seq::<TreeValue>::empty());
                    assert(nodes_values(ops@, 0) =~= seq![opv]);
                    assert(trees_wf(nodes_values(ops@, 0), 1));
                    assert(trees_wf(nodes_values(ops@, 0), 0));
                }
                Ok(
                    SyntaxTreeNode::Function {
                        function_name,
                        function_name_position,
                        operands: ops,
                        operands_position,
                    },
                )
            },
            Ok(_) => Err(
                Positioned::new(
                    SyntaxError::FunctionWithoutParensOrArgument(function_name),
                    function_name_position,
                ),
            ),
        };
    }
    *cursor = *cursor + 1;
    let ghost args_start: int = *cursor as int;

    // Read comma-separated arguments until the closing parenthesis.
    let mut operands: Vec<SyntaxTreeNode> = Vec::new();
    let mut maybe_comma_pos: Option<Position> = None;
    let mut close_opt: Option<Position> = None;
    let ghost mut afuel: nat = (fuel - 1) as nat;
    while close_opt.is_none()
        invariant
            *old(cursor) <= *cursor,
            *cursor as int <= input@.len(),
            tokens_wf(input@),
            ts == tokens_view(input@),
            trees_wf(nodes_values(operands@, 0), 0),
            afuel <= fuel - 1,
            close_opt is None ==> afuel >= 6 * (input@.len() - *cursor) + 4,
            match close_opt {
                None => sp_read_args(ts, args_start, (fuel - 1) as nat, Seq::empty(), None,
                    open_position) == sp_read_args(
                    ts,
                    *cursor as int,
                    afuel,
                    nodes_values(operands@, 0),
                    maybe_comma_pos,
                    open_position,
                ),
                Some(close_pos) => sp_read_args(ts, args_start, (fuel - 1) as nat, Seq::empty(),
                    None, open_position) == Ok::<(Seq<TreeValue>, Position, int), ErrValue>(
                    (nodes_values(operands@, 0), close_pos, *cursor as int),
                ) && pos_ok(close_pos),
            },
        decreases afuel,
    {
        let ghost pre = *cursor as int;
        let ghost pre_ops = nodes_values(operands@, 0);
        match read_expression(input, cursor, Ghost((afuel - 1) as nat)) {
            Err(e) => {
                return Err(e);
            },
            Ok((maybe_node, end)) => match maybe_node {
                Some(node) => {
                    proof {
                        lemma_nodes_values_map(operands@, 0);
                        lemma_nodes_values_map(operands@.push(node), 0);
                        assert(nodes_values(operands@.push(node), 0) =~= nodes_values(
                            operands@,
                            0,
                        ).push(node_value(node)));
                        lemma_trees_wf_push(nodes_values(operands@, 0), node_value(node));
                    }
                    operands.push(node);
                    match end {
                        ExpressionEnd::Comma(p) => {
                            maybe_comma_pos = Some(p);
                            proof {
                                afuel = (afuel - 1) as nat;
                            }
                        },
                        ExpressionEnd::CloseParen(p) => {
                            proof {
                                assert(pos_ok(ts[*cursor - 1].1)) by {
                                    assert(ts[*cursor - 1].1 == input@[*cursor - 1].position);
                                }
                                afuel = (afuel - 1) as nat;
                            }
                            close_opt = Some(p);
                        },
                        ExpressionEnd::InputEmpty => {
                            return Err(
                                Positioned::new(SyntaxError::MismatchedOpenParen, open_position),
                            );
                        },
                    }
                },
                None => match maybe_comma_pos {
                    Some(comma_pos) => {
                        return Err(
                            Positioned::new(SyntaxError::CommaWithoutOperandAfter, comma_pos),
                        );
                    },
                    None => match end {
                        ExpressionEnd::Comma(p) => {
                            return Err(
                                Positioned::new(SyntaxError::CommaWithoutOperandBefore, p),
                            );
                        },
                        ExpressionEnd::CloseParen(p) => {
                            proof {
                                afuel = (afuel - 1) as nat;
                            }
                            close_opt = Some(p);
                        },
                        ExpressionEnd::InputEmpty => {
                            return Err(
                                Positioned::new(SyntaxError::MismatchedOpenParen, open_position),
                            );
                        },
                    },
                },
            },
        }
    }
    let close_position = close_opt.unwrap();
    let operands_position = Position::from_span(open_position, close_position);
    Ok(
        SyntaxTreeNode::Function {
            function_name,
            function_name_position,
            operands,
            operands_position,
        },
    )
}

/// Appending a well-formed tree keeps a tree list well formed.
proof fn lemma_trees_wf_push(ts: Seq<TreeValue>, t: TreeValue)
    requires
        trees_wf(ts, 0),
        tree_wf(t),
    ensures
        trees_wf(ts.push(t), 0),
{
    lemma_trees_wf_push_from(ts, t, 0);
}

proof fn lemma_trees_wf_push_from(ts: Seq<TreeValue>, t: TreeValue, i: int)
    requires
        0 <= i <= ts.len(),
        trees_wf(ts, i),
        tree_wf(t),
    ensures
        trees_wf(ts.push(t), i),
    decreases ts.len() - i,
{
    if i < ts.len() {
        assert(ts.push(t)[i] == ts[i]);
        lemma_trees_wf_push_from(ts, t, i + 1);
    } else {
        assert(ts.push(t)[i] == t);
        assert(trees_wf(ts.push(t), i + 1));
    }
}

/// Reads one whole expression: gather the flat run, fold negations from the
/// right, reduce each precedence tier from the left, and check that exactly
/// one operand remains.
#[verifier::loop_isolation(false)]
#[verifier::rlimit(100)]
fn read_expression(
    input: &Vec<Positioned<Token>>,
    cursor: &mut usize,
    Ghost(fuel): Ghost<nat>,
) -> (r: Result<(Option<SyntaxTreeNode>, ExpressionEnd), Positioned<SyntaxError>>)
    requires
        *old(cursor) <= input@.len(),
        tokens_wf(input@),
        fuel >= 6 * (input@.len() - *old(cursor)) + 3,
    ensures
        *old(cursor) <= *final(cursor) <= input@.len(),
        match sp_read_expression(tokens_view(input@), *old(cursor) as int, fuel) {
            Ok(((root, end), j)) => r matches Ok(p) && p.1 == end && *final(cursor) == j && (
            match root {
                Some(tv) => p.0 matches Some(n) && node_value(n) == tv && tree_wf(tv),
                None => p.0 is None,
            }) && end_wf(end) && (!(end is InputEmpty) ==> *final(cursor) > *old(cursor)),
            Err(e) => r matches Err(pe) && pe.value@ == e.err && pe.position == e.pos,
        },
    decreases fuel,
{
    let ghost ts = tokens_view(input@);
    let ghost i0: int = *cursor as int;

    // Gather the flat run of operands and binary operators.
    let mut items: Vec<OperandOrOperator> = Vec::new();
    let mut end_opt: Option<ExpressionEnd> = None;
    let ghost mut gfuel: nat = (fuel - 1) as nat;
    proof {
        assert(items_values(items@) =~= Seq::<ItemValue>::empty());
    }
    while end_opt.is_none()
        invariant
            i0 <= *cursor as int <= input@.len(),
            tokens_wf(input@),
            ts == tokens_view(input@),
            gfuel <= fuel - 1,
            forall|k: int| 0 <= k < items@.len() ==> item_wf(#[trigger] item_value(items@[k])),
            end_opt matches Some(e) ==> end_wf(e),
            end_opt is None ==> gfuel >= 6 * (input@.len() - *cursor) + 2,
            match end_opt {
                None => sp_gather(ts, i0, (fuel - 1) as nat, Seq::empty()) == sp_gather(
                    ts,
                    *cursor as int,
                    gfuel,
                    items_values(items@),
                ),
                Some(end) => sp_gather(ts, i0, (fuel - 1) as nat, Seq::empty()) == Ok::<
                    (Seq<ItemValue>, ExpressionEnd, int),
                    ErrValue,
                >((items_values(items@), end, *cursor as int)) && (!(end is InputEmpty)
                    ==> *cursor as int > i0),
            },
        decreases gfuel,
    {
        let ghost pre_items = items_values(items@);
        match read_operand_or_operator(input, cursor, Ghost((gfuel - 1) as nat)) {
            Err(e) => {
                return Err(e);
            },
            Ok(InputReadResult::Operand(node)) => {
                proof {
                    assert(items_values(items@.push(OperandOrOperator::Operand(node)))
                        =~= pre_items.push(ItemValue::Operand(node_value(node))));
                }
                items.push(OperandOrOperator::Operand(node));
                proof {
                    gfuel = (gfuel - 1) as nat;
                }
            },
            Ok(InputReadResult::Operator(op)) => {
                proof {
                    assert(items_values(items@.push(OperandOrOperator::Operator(op)))
                        =~= pre_items.push(ItemValue::Operator(op.value, op.position)));
                    assert(pos_ok(op.position));
                }
                items.push(OperandOrOperator::Operator(op));
                proof {
                    gfuel = (gfuel - 1) as nat;
                }
            },
            Ok(InputReadResult::End(e)) => {
                end_opt = Some(e);
                proof {
                    gfuel = (gfuel - 1) as nat;
                }
            },
        }
    }
    let end = end_opt.unwrap();

    // Fold `-` operators that stand for negation, scanning from the right.
    let ghost after_gather = items_values(items@);
    let mut done: Vec<OperandOrOperator> = Vec::new();
    while items.len() > 0
        invariant
            forall|k: int| 0 <= k < items@.len() ==> item_wf(#[trigger] item_value(items@[k])),
            forall|k: int| 0 <= k < done@.len() ==> item_wf(#[trigger] item_value(done@[k])),
            sp_fold_negations(after_gather) == sp_fold_negations(items_values(items@))
                + items_values(done@),
        decreases items@.len(),
    {
        let ghost pre_items = items_values(items@);
        let item = items.pop().unwrap();
        if exec_is_operand(&item) && items.len() >= 1 && exec_is_subtract(
            &items[items.len() - 1],
        ) && (items.len() < 2 || !exec_is_operand(&items[items.len() - 2])) {
            let op = items.pop().unwrap();
            let op_pos = match &op {
                OperandOrOperator::Operator(p) => p.position,
                OperandOrOperator::Operand(_) => vstd::pervasive::unreached(),
            };
            let operand = match item {
                OperandOrOperator::Operand(n) => n,
                OperandOrOperator::Operator(_) => vstd::pervasive::unreached(),
            };
            let folded = SyntaxTreeNode::Unary {
                operator: UnaryOperatorToken::Negate,
                operator_position: op_pos,
                operand: Box::new(operand),
            };
            proof {
                assert(items_values(items@.push(OperandOrOperator::Operand(folded)))
                    =~= pre_items.take(pre_items.len() - 2).push(
                    item_value(OperandOrOperator::Operand(folded)),
                ));
            }
            items.push(OperandOrOperator::Operand(folded));
        } else {
            proof {
                assert(items_values(items@) =~= pre_items.drop_last());
                assert(items_values(done@.insert(0, item)) =~= seq![item_value(item)]
                    + items_values(done@));
                assert(sp_fold_negations(pre_items.drop_last()).push(pre_items.last()) + items_values(done@)
                    =~= sp_fold_negations(pre_items.drop_last()) + (seq![item_value(item)]
                    + items_values(done@)));
            }
            done.insert(0, item);
        }
    }
    proof {
        assert(sp_fold_negations(Seq::<ItemValue>::empty()) + items_values(done@)
            =~= items_values(done@));
    }

    // Reduce each precedence tier in turn, left to right.
    let ghost after_neg = sp_fold_negations(after_gather);
    let mut work: Vec<OperandOrOperator> = done;
    let mut tier: u8 = 0;
    while tier < 4
        invariant
            tier <= 4,
            forall|k: int| 0 <= k < work@.len() ==> item_wf(#[trigger] item_value(work@[k])),
            items_values(work@) == sp_reduce_upto(after_neg, tier as int),
        decreases 4 - tier,
    {
        let mut out: Vec<OperandOrOperator> = Vec::new();
        let ghost start_items = items_values(work@);
        while work.len() > 0
            invariant
                forall|k: int| 0 <= k < work@.len() ==> item_wf(#[trigger] item_value(work@[k])),
                forall|k: int| 0 <= k < out@.len() ==> item_wf(#[trigger] item_value(out@[k])),
                sp_reduce_tier(start_items, tier as int) == items_values(out@) + sp_reduce_tier(
                    items_values(work@),
                    tier as int,
                ),
            decreases work@.len(),
        {
            let ghost pre_items = items_values(work@);
            let item = work.remove(0);
            if exec_is_operand(&item) && work.len() >= 2 && exec_is_tier_op(&work[0], tier)
                && exec_is_operand(&work[1]) {
                let op = work.remove(0);
                let right = work.remove(0);
                let op_p = match &op {
                    OperandOrOperator::Operator(p) => (p.value, p.position),
                    OperandOrOperator::Operand(_) => vstd::pervasive::unreached(),
                };
                let left_node = match item {
                    OperandOrOperator::Operand(n) => n,
                    OperandOrOperator::Operator(_) => vstd::pervasive::unreached(),
                };
                let right_node = match right {
                    OperandOrOperator::Operand(n) => n,
                    OperandOrOperator::Operator(_) => vstd::pervasive::unreached(),
                };
                let combined = SyntaxTreeNode::Binary {
                    operator: op_p.0,
                    operator_position: op_p.1,
                    operand_1: Box::new(left_node),
                    operand_2: Box::new(right_node),
                };
                proof {
                    assert(items_values(work@.insert(0, OperandOrOperator::Operand(combined)))
                        =~= seq![item_value(OperandOrOperator::Operand(combined))]
                        + pre_items.skip(3));
                }
                work.insert(0, OperandOrOperator::Operand(combined));
            } else {
                proof {
                    assert(items_values(work@) =~= pre_items.drop_first());
                    assert(items_values(out@.push(item)) =~= items_values(out@).push(
                        item_value(item),
                    ));
                    assert(items_values(out@).push(pre_items[0]) + sp_reduce_tier(
                        pre_items.drop_first(),
                        tier as int,
                    ) =~= items_values(out@) + (seq![pre_items[0]] + sp_reduce_tier(
                        pre_items.drop_first(),
                        tier as int,
                    )));
                }
                out.push(item);
            }
        }
        proof {
            assert(items_values(out@) + sp_reduce_tier(Seq::<ItemValue>::empty(), tier as int)
                =~= items_values(out@));
        }
        work = out;
        tier = tier + 1;
    }
    proof {
        assert(items_values(work@) == sp_reduce_all(after_neg));
    }

    // Exactly one operand must remain.
    if work.len() == 0 {
        proof {
            assert(items_values(work@) =~= Seq::<ItemValue>::empty());
        }
        return Ok((None, end));
    }
    let ghost final_items = items_values(work@);
    let first = work.remove(0);
    proof {
        assert(item_value(first) == final_items[0]);
    }
    match first {
        OperandOrOperator::Operator(p) => Err(
            Positioned::new(
                SyntaxError::MissingOperand(Token::BinaryOperator(p.value)),
                p.position,
            ),
        ),
        OperandOrOperator::Operand(first_node) => {
            if work.len() == 0 {
                return Ok((Some(first_node), end));
            }
            let second = work.remove(0);
            proof {
                assert(item_value(second) == final_items[1]);
            }
            match second {
                OperandOrOperator::Operand(second_node) => {
                    proof {
                        lemma_tree_pos_ok(node_value(first_node));
                        lemma_tree_pos_ok(node_value(second_node));
                    }
                    let p1 = first_node.position();
                    let p2 = second_node.position();
                    Err(Positioned::new_between(SyntaxError::MissingOperator, p1, p2))
                },
                OperandOrOperator::Operator(p) => Err(
                    Positioned::new(
                        SyntaxError::MissingOperand(Token::BinaryOperator(p.value)),
                        p.position,
                    ),
                ),
            }
        },
    }
}

/// A valid expression, optionally preceded by an assignment target. Executing
/// the tree consumes it, writes the assignment target back if there is one,
/// and returns the result.
#[derive(Debug)]
pub struct SyntaxTree {
    pub maybe_result_var: Option<Positioned<String>>,
    pub root: SyntaxTreeNode,
}

/// The mathematical value of a whole tree.
pub open spec fn syntax_tree_value(t: SyntaxTree) -> SyntaxTreeValue {
    SyntaxTreeValue {
        result_var: match t.maybe_result_var {
            Some(p) => Some((p.value@, p.position)),
            None => None,
        },
        root: node_value(t.root),
    }
}

impl SyntaxTree {
    /// Builds the syntax tree of a token sequence: an assignment target when
    /// the first two tokens are exactly a variable and `=`, then one
    /// expression that must use up all the input. `sp_parse` states the
    /// result exactly.
    #[verifier::loop_isolation(false)]
    pub fn new(input: Vec<Positioned<Token>>) -> (r: Result<SyntaxTree, Positioned<SyntaxError>>)
        requires
            tokens_wf(input@),
        ensures
            match sp_parse(tokens_view(input@)) {
                Ok(v) => r matches Ok(st) && syntax_tree_value(st) == v && tree_wf(v.root),
                Err(e) => r matches Err(pe) && pe.value@ == e.err && pe.position == e.pos,
            },
    {
        let ghost ts = tokens_view(input@);
        // Take the assignment target off the front, when the first two tokens
        // form one.
        let has_target = input.len() >= 2 && matches!(&input[0].value, Token::Variable(_))
            && matches!(&input[1].value, Token::AssignmentOperator);
        let maybe_result_var: Option<Positioned<String>> = if has_target {
            let name = match &input[0].value {
                Token::Variable(s) => String::from_str(s.as_str()),
                _ => vstd::pervasive::unreached(),
            };
            Some(Positioned::new(name, input[0].position))
        } else {
            None
        };
        let mut cursor: usize = if has_target {
            2
        } else {
            0
        };
        proof {
            if input@.len() >= 1 {
                assert(ts[0] == (input@[0].value@, input@[0].position));
            }
            if input@.len() >= 2 {
                assert(ts[1] == (input@[1].value@, input@[1].position));
            }
        }

        let ghost fuel0: nat = parse_fuel(input@.len() - cursor as int);
        let result = read_expression(&input, &mut cursor, Ghost(fuel0));
        match result {
            Err(e) => Err(e),
            Ok((maybe_root, end)) => match end {
                ExpressionEnd::Comma(p) => Err(
                    Positioned::new(SyntaxError::UnexpectedToken(Token::Comma), p),
                ),
                ExpressionEnd::CloseParen(p) => Err(
                    Positioned::new(SyntaxError::MismatchedCloseParen, p),
                ),
                ExpressionEnd::InputEmpty => match maybe_root {
                    None => Err(Positioned::new_raw(SyntaxError::NoInput, 0, 0)),
                    Some(root) => Ok(SyntaxTree { maybe_result_var, root }),
                },
            },
        }
    }
}

// ---------------------------------------------------------------------------
// Evaluation
// ---------------------------------------------------------------------------

/// What evaluating a subtree yields: an exact reduced value; an approximate
/// value (the evaluation passed through a fractional exponentiation, whose
/// result the numeric routine bounds but no closed form pins down — any
/// outcome from that point on, including a data-dependent error, is covered);
/// or a positioned failure with its display text.
pub ghost enum EvalOutcome {
    Value { n: int, d: int },
    Approx,
    Failed { msg: Seq<char>, pos: Position },
}

/// The outcome of one binary operation on two evaluated, non-failed operands.
/// A zero divisor is division by zero even when the other operand is
/// approximate; an integer exponent gives the exact power; a fractional
/// exponent delegates to the root-finding routine, whose negative-radicand
/// check on an even root degree is exact but whose value is approximate.
pub open spec fn sp_eval_binary(
    op: BinaryOperatorToken,
    op_pos: Position,
    lv: EvalOutcome,
    rv: EvalOutcome,
) -> EvalOutcome {
    if (op == BinaryOperatorToken::Divide || op == BinaryOperatorToken::Modulus) && (rv
        matches EvalOutcome::Value { n, .. } && n == 0) {
        EvalOutcome::Failed {
            msg: crate::errors::spec_math_error_message(
                crate::errors::MathExecutionErrorValue::DivisionByZero,
            ),
            pos: op_pos,
        }
    } else if !(lv is Value) || !(rv is Value) {
        EvalOutcome::Approx
    } else {
        let a = (lv->Value_n, lv->Value_d);
        let b = (rv->Value_n, rv->Value_d);
        match op {
            BinaryOperatorToken::Add => EvalOutcome::Value {
                n: pair_add(a, b).0,
                d: pair_add(a, b).1,
            },
            BinaryOperatorToken::Subtract => EvalOutcome::Value {
                n: pair_sub(a, b).0,
                d: pair_sub(a, b).1,
            },
            BinaryOperatorToken::Multiply => EvalOutcome::Value {
                n: pair_mul(a, b).0,
                d: pair_mul(a, b).1,
            },
            BinaryOperatorToken::Divide => EvalOutcome::Value {
                n: pair_div(a, b).0,
                d: pair_div(a, b).1,
            },
            BinaryOperatorToken::Modulus => EvalOutcome::Value {
                n: pair_rem(a, b).0,
                d: pair_rem(a, b).1,
            },
            BinaryOperatorToken::Exponent => {
                if b.0 < 0 && a.0 == 0 {
                    EvalOutcome::Failed {
                        msg: crate::errors::spec_math_error_message(
                            crate::errors::MathExecutionErrorValue::DivisionByZero,
                        ),
                        pos: op_pos,
                    }
                } else if b.1 == 1 {
                    EvalOutcome::Value {
                        n: crate::operations::pow_pair_num(a.0, a.1, b.0),
                        d: crate::operations::pow_pair_den(a.0, a.1, b.0),
                    }
                } else if crate::operations::pow_pair_num(a.0, a.1, b.0) < 0 && b.1 % 2 == 0 {
                    EvalOutcome::Failed {
                        msg: crate::errors::spec_math_error_message(
                            crate::errors::MathExecutionErrorValue::ImaginaryResult,
                        ),
                        pos: op_pos,
                    }
                } else {
                    EvalOutcome::Approx
                }
            },
        }
    }
}

/// The outcome of evaluating one subtree against an optional variable store.
pub open spec fn sp_eval(t: TreeValue, store: Option<Map<Seq<char>, (int, int)>>) -> EvalOutcome
    decreases t, 0int,
{
    match t {
        TreeValue::Number { n, d, .. } => EvalOutcome::Value { n, d },
        TreeValue::Variable { name, pos } => match store {
            None => EvalOutcome::Failed {
                msg: crate::errors::spec_capability_error_message(
                    crate::errors::MissingCapabilityError::NoVariableStore,
                ),
                pos,
            },
            Some(m) => if m.contains_key(name) {
                EvalOutcome::Value { n: m[name].0, d: m[name].1 }
            } else {
                EvalOutcome::Failed {
                    msg: crate::errors::spec_math_error_message(
                        crate::errors::MathExecutionErrorValue::UnknownVariable(name),
                    ),
                    pos,
                }
            },
        },
        TreeValue::Unary { op, op_pos, operand } => match sp_eval(*operand, store) {
            EvalOutcome::Failed { msg, pos } => EvalOutcome::Failed { msg, pos },
            EvalOutcome::Approx => EvalOutcome::Approx,
            EvalOutcome::Value { n, d } => match op {
                UnaryOperatorToken::SquareRoot => EvalOutcome::Failed {
                    msg: crate::errors::spec_math_error_message(
                        crate::errors::MathExecutionErrorValue::Unimplemented,
                    ),
                    pos: op_pos,
                },
                UnaryOperatorToken::Negate => EvalOutcome::Value { n: -n, d },
                UnaryOperatorToken::AbsoluteValue => EvalOutcome::Value {
                    n: crate::numbers::iabs(n) as int,
                    d,
                },
            },
        },
        TreeValue::Binary { op, op_pos, left, right } => match sp_eval(*left, store) {
            EvalOutcome::Failed { msg, pos } => EvalOutcome::Failed { msg, pos },
            EvalOutcome::Approx => EvalOutcome::Approx,
            lv => match sp_eval(*right, store) {
                EvalOutcome::Failed { msg, pos } => EvalOutcome::Failed { msg, pos },
                rv => sp_eval_binary(op, op_pos, lv, rv),
            },
        },
        TreeValue::Function { name, name_pos, operands, .. } => match sp_eval_list(
            operands,
            0,
            store,
        ) {
            ArgsOutcome::ArgsFailed { msg, pos } => EvalOutcome::Failed { msg, pos },
            ArgsOutcome::ArgsDone { vals, any_approx } => if operands.len() == 0 {
                EvalOutcome::Failed {
                    msg: crate::errors::spec_math_error_message(
                        crate::errors::MathExecutionErrorValue::FunctionNeedsArguments(name),
                    ),
                    pos: name_pos,
                }
            } else if any_approx {
                EvalOutcome::Approx
            } else {
                EvalOutcome::Value {
                    n: sp_fold_minmax(name, vals, 1, vals[0]).0,
                    d: sp_fold_minmax(name, vals, 1, vals[0]).1,
                }
            },
        },
        TreeValue::Parenthesized { inner, .. } => sp_eval(*inner, store),
    }
}

/// The outcomes of evaluating an argument list left to right: the first
/// failure wins; otherwise the values, with approximate ones standing in as
/// `0/1` and noted in `any_approx`.
pub ghost enum ArgsOutcome {
    ArgsFailed { msg: Seq<char>, pos: Position },
    ArgsDone { vals: Seq<(int, int)>, any_approx: bool },
}

/// Evaluates the arguments from index `i` on.
pub open spec fn sp_eval_list(
    ops: Seq<TreeValue>,
    i: int,
    store: Option<Map<Seq<char>, (int, int)>>,
) -> ArgsOutcome
    decreases ops, ops.len() - i,
{
    if i < 0 || i >= ops.len() {
        ArgsOutcome::ArgsDone { vals: Seq::empty(), any_approx: false }
    } else {
        match sp_eval(ops[i], store) {
            EvalOutcome::Failed { msg, pos } => ArgsOutcome::ArgsFailed { msg, pos },
            EvalOutcome::Value { n, d } => match sp_eval_list(ops, i + 1, store) {
                ArgsOutcome::ArgsFailed { msg, pos } => ArgsOutcome::ArgsFailed { msg, pos },
                ArgsOutcome::ArgsDone { vals, any_approx } => ArgsOutcome::ArgsDone {
                    vals: seq![(n, d)] + vals,
                    any_approx,
                },
            },
            EvalOutcome::Approx => match sp_eval_list(ops, i + 1, store) {
                ArgsOutcome::ArgsFailed { msg, pos } => ArgsOutcome::ArgsDone {
                    vals: seq![(0, 1)],
                    any_approx: true,
                },
                ArgsOutcome::ArgsDone { vals, any_approx } => ArgsOutcome::ArgsDone {
                    vals: seq![(0, 1)] + vals,
                    any_approx: true,
                },
            },
        }
    }
}

/// Folds the values from index `i` on with `max` or `min`, starting from
/// `acc`.
pub open spec fn sp_fold_minmax(
    name: FunctionNameToken,
    vals: Seq<(int, int)>,
    i: int,
    acc: (int, int),
) -> (int, int)
    decreases vals.len() - i,
{
    if i < 0 || i >= vals.len() {
        acc
    } else {
        let next = match name {
            FunctionNameToken::Max => if pair_lt(acc, vals[i]) {
                vals[i]
            } else {
                acc
            },
            FunctionNameToken::Min => if pair_lt(vals[i], acc) {
                vals[i]
            } else {
                acc
            },
        };
        sp_fold_minmax(name, vals, i + 1, next)
    }
}

/// The maps an optional store holds.
pub open spec fn store_maps(
    store: Option<crate::variable::VariableStore>,
) -> Option<Map<Seq<char>, (int, int)>> {
    match store {
        None => None,
        Some(s) => Some(s.store_map()),
    }
}

impl SyntaxTreeNode {
    /// Evaluates one subtree by post-order recursion, consulting the variable
    /// store for variable reads. `sp_eval` states the outcome: exact values
    /// exactly, failures with their message and position, and approximate
    /// values (from fractional exponentiation) at least well formed.
    #[verifier::loop_isolation(false)]
    fn execute_node(
        &self,
        vars: &Option<crate::variable::VariableStore>,
        precision: u8,
        radix: u8,
    ) -> (r: Result<BigRational, CalculatorFailure>)
        requires
            tree_wf(node_value(*self)),
            vars matches Some(s) ==> s.wf(),
            2 <= radix <= 16,
        ensures
            match sp_eval(node_value(*self), store_maps(*vars)) {
                EvalOutcome::Value { n, d } => r matches Ok(x) && crate::numbers::rat_wf(x)
                    && crate::numbers::rat_numer(x) == n && crate::numbers::rat_denom(x) == d,
                EvalOutcome::Approx => (r matches Ok(x) ==> crate::numbers::rat_wf(x)) && (r
                    matches Err(f) ==> f is InputError),
                EvalOutcome::Failed { msg, pos } => r matches Err(f) && f matches
                    CalculatorFailure::InputError(m) && m.value@ == msg && m.maybe_position
                    == Some(pos),
            },
        decreases *self, 0int,
    {
        let zero = crate::numbers::bigint_from_u32(0);
        match self {
            SyntaxTreeNode::Number { value, .. } => Ok(rat_clone(value)),
            SyntaxTreeNode::Variable { name, position } => match vars {
                None => Err(
                    CalculatorFailure::from_capability_error(
                        Positioned::new(
                            crate::errors::MissingCapabilityError::NoVariableStore,
                            *position,
                        ),
                    ),
                ),
                Some(store) => match store.get(name.as_str()) {
                    Some(var) => Ok(var.value),
                    None => Err(
                        CalculatorFailure::from_math_error(
                            Positioned::new(
                                crate::errors::MathExecutionError::UnknownVariable(
                                    String::from_str(name.as_str()),
                                ),
                                *position,
                            ),
                        ),
                    ),
                },
            },
            SyntaxTreeNode::Unary { operator, operator_position, operand } => {
                proof {
                    assert(*(node_value(*self)->Unary_operand) == node_value(**operand));
                }
                let sub = match operand.execute_node(vars, precision, radix) {
                    Ok(v) => v,
                    Err(e) => {
                        return Err(e);
                    },
                };
                match operator {
                    UnaryOperatorToken::SquareRoot => Err(
                        CalculatorFailure::from_math_error(
                            Positioned::new(
                                crate::errors::MathExecutionError::Unimplemented,
                                *operator_position,
                            ),
                        ),
                    ),
                    UnaryOperatorToken::Negate => Ok(crate::numbers::rat_neg(&sub)),
                    UnaryOperatorToken::AbsoluteValue => Ok(crate::numbers::rat_abs(&sub)),
                }
            },
            SyntaxTreeNode::Binary { operator, operator_position, operand_1, operand_2 } => {
                proof {
                    assert(*(node_value(*self)->Binary_left) == node_value(**operand_1));
                    assert(*(node_value(*self)->Binary_right) == node_value(**operand_2));
                }
                let lhs = match operand_1.execute_node(vars, precision, radix) {
                    Ok(v) => v,
                    Err(e) => {
                        return Err(e);
                    },
                };
                let rhs = match operand_2.execute_node(vars, precision, radix) {
                    Ok(v) => v,
                    Err(e) => {
                        return Err(e);
                    },
                };
                match operator {
                    BinaryOperatorToken::Add => Ok(crate::numbers::rat_add(&lhs, &rhs)),
                    BinaryOperatorToken::Subtract => Ok(crate::numbers::rat_sub(&lhs, &rhs)),
                    BinaryOperatorToken::Multiply => Ok(crate::numbers::rat_mul(&lhs, &rhs)),
                    BinaryOperatorToken::Divide => {
                        let rn = crate::numbers::rat_numer_of(&rhs);
                        if crate::numbers::bigint_eq(&rn, &zero) {
                            Err(
                                CalculatorFailure::from_math_error(
                                    Positioned::new(
                                        crate::errors::MathExecutionError::DivisionByZero,
                                        *operator_position,
                                    ),
                                ),
                            )
                        } else {
                            Ok(crate::numbers::rat_div(&lhs, &rhs))
                        }
                    },
                    BinaryOperatorToken::Modulus => {
                        let rn = crate::numbers::rat_numer_of(&rhs);
                        if crate::numbers::bigint_eq(&rn, &zero) {
                            Err(
                                CalculatorFailure::from_math_error(
                                    Positioned::new(
                                        crate::errors::MathExecutionError::DivisionByZero,
                                        *operator_position,
                                    ),
                                ),
                            )
                        } else {
                            Ok(crate::numbers::rat_rem(&lhs, &rhs))
                        }
                    },
                    BinaryOperatorToken::Exponent => {
                        let exp_denom = crate::numbers::rat_denom_of(&rhs);
                        let exp_numer = crate::numbers::rat_numer_of(&rhs);
                        let one = crate::numbers::bigint_from_u32(1);
                        if crate::numbers::bigint_eq(&exp_denom, &one) {
                            let base_numer = crate::numbers::rat_numer_of(&lhs);
                            if crate::numbers::bigint_lt(&exp_numer, &zero)
                                && crate::numbers::bigint_eq(&base_numer, &zero) {
                                Err(
                                    CalculatorFailure::from_math_error(
                                        Positioned::new(
                                            crate::errors::MathExecutionError::DivisionByZero,
                                            *operator_position,
                                        ),
                                    ),
                                )
                            } else {
                                Ok(crate::numbers::rat_pow_bigint(&lhs, &exp_numer))
                            }
                        } else {
                            match crate::operations::exponentiate(lhs, rhs, precision, radix) {
                                Ok(v) => Ok(v),
                                Err(me) => Err(
                                    CalculatorFailure::from_math_error(
                                        Positioned::new(me, *operator_position),
                                    ),
                                ),
                            }
                        }
                    },
                }
            },
            SyntaxTreeNode::Function {
                function_name,
                function_name_position,
                operands,
                ..
            } => {
                proof {
                    lemma_nodes_values_map(operands@, 0);
                    assert(operands@.skip(0) =~= operands@);
                    assert(nodes_values(operands@, 0).len() == operands@.len());
                }
                let values = match execute_arguments(operands, 0, vars, precision, radix) {
                    Ok(v) => v,
                    Err(e) => {
                        return Err(e);
                    },
                };
                if values.len() == 0 {
                    return Err(
                        CalculatorFailure::from_math_error(
                            Positioned::new(
                                crate::errors::MathExecutionError::FunctionNeedsArguments(
                                    *function_name,
                                ),
                                *function_name_position,
                            ),
                        ),
                    );
                }
                let ghost list = sp_eval_list(
                    nodes_values(operands@, 0),
                    0,
                    store_maps(*vars),
                );
                let is_max = match function_name {
                    FunctionNameToken::Max => true,
                    FunctionNameToken::Min => false,
                };
                let mut acc = rat_clone(&values[0]);
                let mut i: usize = 1;
                while i < values.len()
                    invariant
                        1 <= i <= values@.len(),
                        crate::numbers::rat_wf(acc),
                        forall|k: int|
                            0 <= k < values@.len() ==> crate::numbers::rat_wf(
                                #[trigger] values@[k],
                            ),
                        match list {
                            ArgsOutcome::ArgsDone { vals, any_approx } => !any_approx ==> {
                                &&& vals.len() == values@.len()
                                &&& (forall|k: int|
                                    0 <= k < vals.len() ==> #[trigger] vals[k] == (
                                    crate::numbers::rat_numer(values@[k]),
                                    crate::numbers::rat_denom(values@[k]),
                                ))
                                &&& sp_fold_minmax(*function_name, vals, i as int, (
                                crate::numbers::rat_numer(acc),
                                crate::numbers::rat_denom(acc),
                                )) == sp_fold_minmax(*function_name, vals, 1, vals[0])
                            },
                            _ => true,
                        },
                    decreases values@.len() - i,
                {
                    let ghost accp = (
                        crate::numbers::rat_numer(acc),
                        crate::numbers::rat_denom(acc),
                    );
                    let take_next = if is_max {
                        crate::numbers::rat_lt(&acc, &values[i])
                    } else {
                        crate::numbers::rat_lt(&values[i], &acc)
                    };
                    if take_next {
                        acc = rat_clone(&values[i]);
                    }
                    proof {
                        match list {
                            ArgsOutcome::ArgsDone { vals, any_approx } => {
                                if !any_approx {
                                    assert(vals.len() == values@.len());
                                    assert(0 <= i < vals.len());
                                    assert(vals[i as int] == (
                                        crate::numbers::rat_numer(values@[i as int]),
                                        crate::numbers::rat_denom(values@[i as int]),
                                    ));
                                    let next = match *function_name {
                                        FunctionNameToken::Max => if pair_lt(
                                            accp,
                                            vals[i as int],
                                        ) {
                                            vals[i as int]
                                        } else {
                                            accp
                                        },
                                        FunctionNameToken::Min => if pair_lt(
                                            vals[i as int],
                                            accp,
                                        ) {
                                            vals[i as int]
                                        } else {
                                            accp
                                        },
                                    };
                                    assert(is_max == (*function_name
                                        == FunctionNameToken::Max));
                                    assert(is_max ==> take_next == pair_lt(
                                        accp,
                                        vals[i as int],
                                    ));
                                    assert(take_next == (match *function_name {
                                        FunctionNameToken::Max => pair_lt(accp, vals[i as int]),
                                        FunctionNameToken::Min => pair_lt(vals[i as int], accp),
                                    }));
                                    if take_next {
                                        assert(crate::numbers::rat_numer(acc) == vals[i as int].0);
                                        assert(crate::numbers::rat_denom(acc) == vals[i as int].1);
                                    } else {
                                        assert(crate::numbers::rat_numer(acc) == accp.0);
                                    }
                                    assert((
                                        crate::numbers::rat_numer(acc),
                                        crate::numbers::rat_denom(acc),
                                    ) == next);
                                    assert(sp_fold_minmax(*function_name, vals, i as int, accp)
                                        == sp_fold_minmax(*function_name, vals, i + 1, next));
                                }
                            },
                            _ => {},
                        }
                    }
                    i = i + 1;
                }
                Ok(acc)
            },
            SyntaxTreeNode::Parenthesized { node, .. } => {
                proof {
                    assert(*(node_value(*self)->Parenthesized_inner) == node_value(**node));
                }
                node.execute_node(vars, precision, radix)
            },
        }
    }
}

/// Evaluates a function's argument subtrees from index `i` on, left to right,
/// stopping at the first failure. When none of the outcomes is approximate
/// the returned values match `sp_eval_list` exactly; they are well formed in
/// every case.
fn execute_arguments(
    operands: &Vec<SyntaxTreeNode>,
    i: usize,
    vars: &Option<crate::variable::VariableStore>,
    precision: u8,
    radix: u8,
) -> (r: Result<Vec<BigRational>, CalculatorFailure>)
    requires
        i <= operands@.len(),
        trees_wf(nodes_values(operands@, 0), 0),
        vars matches Some(s) ==> s.wf(),
        2 <= radix <= 16,
    ensures
        match sp_eval_list(nodes_values(operands@, 0), i as int, store_maps(*vars)) {
            ArgsOutcome::ArgsFailed { msg, pos } => r matches Err(f) && f matches
                CalculatorFailure::InputError(m) && m.value@ == msg && m.maybe_position
                == Some(pos),
            ArgsOutcome::ArgsDone { vals, any_approx } => (r matches Ok(v) ==> v@.len()
                == operands@.len() - i && (forall|k: int|
                0 <= k < v@.len() ==> crate::numbers::rat_wf(#[trigger] v@[k])) && (!any_approx
                ==> vals.len() == v@.len() && (forall|k: int|
                0 <= k < vals.len() ==> #[trigger] vals[k] == (
                crate::numbers::rat_numer(v@[k]),
                crate::numbers::rat_denom(v@[k]),
            )))) && (!any_approx ==> r is Ok) && (r matches Err(f) ==> f is InputError),
        },
    decreases operands@, operands@.len() - i,
{
    proof {
        lemma_trees_wf_index(nodes_values(operands@, 0), 0);
        lemma_nodes_values_map(operands@, 0);
        assert(operands@.skip(0) =~= operands@);
        assert(nodes_values(operands@, 0).len() == operands@.len());
        assert(forall|k: int|
            0 <= k < operands@.len() ==> #[trigger] nodes_values(operands@, 0)[k] == node_value(
                operands@[k],
            ));
    }
    if i >= operands.len() {
        proof {
            assert(sp_eval_list(nodes_values(operands@, 0), i as int, store_maps(*vars))
                matches ArgsOutcome::ArgsDone { vals, any_approx } && vals.len() == 0
                && !any_approx);
        }
        return Ok(Vec::new());
    }
    let head = match (&operands[i]).execute_node(vars, precision, radix) {
        Ok(v) => v,
        Err(e) => {
            return Err(e);
        },
    };
    match execute_arguments(operands, i + 1, vars, precision, radix) {
        Err(e) => Err(e),
        Ok(mut rest) => {
            rest.insert(0, head);
            Ok(rest)
        },
    }
}

/// Every tree of a well-formed list is well formed.
proof fn lemma_trees_wf_index(ts: Seq<TreeValue>, i: int)
    requires
        0 <= i <= ts.len(),
        trees_wf(ts, i),
    ensures
        forall|k: int| i <= k < ts.len() ==> tree_wf(#[trigger] ts[k]),
    decreases ts.len() - i,
{
    if i < ts.len() {
        lemma_trees_wf_index(ts, i + 1);
    }
}

impl SyntaxTree {
    /// Evaluates the tree, consuming it. The result is the expression's exact
    /// rational value — approximate only when a fractional exponentiation was
    /// involved — and when the tree carries an assignment target, the value is
    /// written back to the variable store tagged with the supplied history
    /// identifier. An assignment without a store is an error at the target's
    /// position; evaluation never touches the store otherwise.
    pub fn execute(
        self,
        maybe_input_history_id: Option<i64>,
        maybe_vars: &mut Option<crate::variable::VariableStore>,
        precision: u8,
        radix: u8,
    ) -> (r: Result<BigRational, CalculatorFailure>)
        requires
            tree_wf(node_value(self.root)),
            (*old(maybe_vars)) matches Some(s) ==> s.wf(),
            2 <= radix <= 16,
        ensures
            (*final(maybe_vars)) matches Some(s) ==> s.wf(),
            (*final(maybe_vars)) is Some <==> (*old(maybe_vars)) is Some,
            ({
                let v = syntax_tree_value(self);
                let outcome = sp_eval(v.root, store_maps(*old(maybe_vars)));
                match outcome {
                    EvalOutcome::Failed { msg, pos } => r matches Err(f) && f matches
                        CalculatorFailure::InputError(m) && m.value@ == msg
                        && m.maybe_position == Some(pos) && *final(maybe_vars) == *old(
                        maybe_vars,
                    ),
                    EvalOutcome::Value { n, d } => match v.result_var {
                        None => r matches Ok(x) && crate::numbers::rat_wf(x)
                            && crate::numbers::rat_numer(x) == n && crate::numbers::rat_denom(
                            x,
                        ) == d && *final(maybe_vars) == *old(maybe_vars),
                        Some(target) => match *old(maybe_vars) {
                            None => r matches Err(f) && f matches
                                CalculatorFailure::InputError(m) && m.value@
                                == crate::errors::spec_capability_error_message(
                                crate::errors::MissingCapabilityError::NoVariableStore,
                            ) && m.maybe_position == Some(target.1) && *final(maybe_vars)
                                == *old(maybe_vars),
                            Some(store) => r matches Ok(x) && crate::numbers::rat_wf(x)
                                && crate::numbers::rat_numer(x) == n
                                && crate::numbers::rat_denom(x) == d && ((*final(maybe_vars))
                                matches Some(s) && s.store_map() == store.store_map().insert(
                                target.0,
                                (n, d),
                            )),
                        },
                    },
                    EvalOutcome::Approx => match v.result_var {
                        None => (r matches Ok(x) ==> crate::numbers::rat_wf(x)) && (r matches
                            Err(f) ==> f is InputError) && *final(maybe_vars) == *old(
                            maybe_vars,
                        ),
                        Some(target) => match *old(maybe_vars) {
                            None => r matches Err(f) && f is InputError && *final(maybe_vars)
                                == *old(maybe_vars),
                            Some(store) => (r matches Ok(x) ==> crate::numbers::rat_wf(x) && (
                            (*final(maybe_vars)) matches Some(s) && s.store_map()
                                == store.store_map().insert(
                                target.0,
                                (crate::numbers::rat_numer(x), crate::numbers::rat_denom(x)),
                            ))) && (r matches Err(f) ==> f is InputError && *final(maybe_vars)
                                == *old(maybe_vars)),
                        },
                    },
                }
            }),
    {
        let SyntaxTree { maybe_result_var, root } = self;
        let result = match root.execute_node(maybe_vars, precision, radix) {
            Ok(v) => v,
            Err(e) => {
                return Err(e);
            },
        };
        if let Some(result_var) = maybe_result_var {
            match maybe_vars {
                Some(vars) => {
                    let var = crate::variable::Variable {
                        name: result_var.value,
                        value: rat_clone(&result),
                    };
                    match vars.update(var, maybe_input_history_id) {
                        Ok(()) => {},
                        Err(e) => {
                            return Err(e);
                        },
                    }
                },
                None => {
                    return Err(
                        CalculatorFailure::from_capability_error(
                            Positioned::new(
                                crate::errors::MissingCapabilityError::NoVariableStore,
                                result_var.position,
                            ),
                        ),
                    );
                },
            }
        }
        Ok(result)
    }
}

} // verus!
