//! Tokens and the tokenizer.
//!
//! `tokenize` turns a line of input into either a command (a name and a raw
//! argument string) or a sequence of positioned tokens. Its whole behaviour is
//! stated by the spec functions in this module: `spec_tokenize_expr` is the
//! mathematical tokenizer the executable one is proved against.

use vstd::prelude::*;

verus! {

use num::rational::BigRational;

use crate::digits::int_digit_seq;
use crate::numbers::{rat_denom, rat_numer};

/// Unary operator tokens. `SquareRoot` is tokenized and parsed but reserved:
/// evaluation reports it as unimplemented.
#[derive(Clone, Copy, Debug, PartialEq, Eq, Structural)]
pub enum UnaryOperatorToken {
    SquareRoot,
    Negate,
    AbsoluteValue,
}

/// Binary operator tokens.
#[derive(Clone, Copy, Debug, PartialEq, Eq, Structural)]
pub enum BinaryOperatorToken {
    Add,
    Subtract,
    Multiply,
    Divide,
    Modulus,
    Exponent,
}

/// The precedence tier of a binary operator: tier 0 binds tightest and is
/// reduced first.
pub open spec fn spec_tier_of(op: BinaryOperatorToken) -> int {
    match op {
        BinaryOperatorToken::Exponent => 0,
        BinaryOperatorToken::Modulus => 1,
        BinaryOperatorToken::Multiply => 2,
        BinaryOperatorToken::Divide => 2,
        BinaryOperatorToken::Add => 3,
        BinaryOperatorToken::Subtract => 3,
    }
}

/// The number of precedence tiers.
pub const TIER_COUNT: u8 = 4;

impl BinaryOperatorToken {
    /// The precedence tier of this operator, `0 .. TIER_COUNT`, tightest
    /// binding first.
    pub fn tier(self) -> (r: u8)
        ensures
            r as int == spec_tier_of(self),
            r < TIER_COUNT,
    {
        match self {
            BinaryOperatorToken::Exponent => 0,
            BinaryOperatorToken::Modulus => 1,
            BinaryOperatorToken::Multiply => 2,
            BinaryOperatorToken::Divide => 2,
            BinaryOperatorToken::Add => 3,
            BinaryOperatorToken::Subtract => 3,
        }
    }
}

/// Function name tokens.
#[derive(Clone, Copy, Debug, PartialEq, Eq, Structural)]
pub enum FunctionNameToken {
    Max,
    Min,
}

/// One token of calculator input.
#[derive(Debug)]
pub enum Token {
    Variable(String),
    AssignmentOperator,
    Comma,
    Number(BigRational),
    OpenParen,
    CloseParen,
    BinaryOperator(BinaryOperatorToken),
    UnaryOperator(UnaryOperatorToken),
    Function(FunctionNameToken),
}

/// The mathematical value of a token: a number is its exact rational value as
/// a reduced numerator/denominator pair, a variable its name.
pub ghost enum TokenValue {
    Variable(Seq<char>),
    AssignmentOperator,
    Comma,
    Number { n: int, d: int },
    OpenParen,
    CloseParen,
    BinaryOperator(BinaryOperatorToken),
    UnaryOperator(UnaryOperatorToken),
    Function(FunctionNameToken),
}

impl View for Token {
    type V = TokenValue;

    open spec fn view(&self) -> TokenValue {
        match self {
            Token::Variable(s) => TokenValue::Variable(s@),
            Token::AssignmentOperator => TokenValue::AssignmentOperator,
            Token::Comma => TokenValue::Comma,
            Token::Number(v) => TokenValue::Number { n: rat_numer(*v), d: rat_denom(*v) },
            Token::OpenParen => TokenValue::OpenParen,
            Token::CloseParen => TokenValue::CloseParen,
            Token::BinaryOperator(op) => TokenValue::BinaryOperator(*op),
            Token::UnaryOperator(op) => TokenValue::UnaryOperator(*op),
            Token::Function(f) => TokenValue::Function(*f),
        }
    }
}

// ---------------------------------------------------------------------------
// Token descriptions (used in user-facing error messages)
// ---------------------------------------------------------------------------

/// The description of a unary operator token in error messages.
pub open spec fn spec_unary_op_desc(op: UnaryOperatorToken) -> Seq<char> {
    match op {
        UnaryOperatorToken::SquareRoot => "Square Root Operator (sqrt)"@,
        UnaryOperatorToken::Negate => "Negation Operator (-)"@,
        UnaryOperatorToken::AbsoluteValue => "Absolute Value Operator (abs)"@,
    }
}

/// The description of a binary operator token in error messages.
pub open spec fn spec_binary_op_desc(op: BinaryOperatorToken) -> Seq<char> {
    match op {
        BinaryOperatorToken::Add => "Addition Operator (+)"@,
        BinaryOperatorToken::Subtract => "Subtraction Operator (-)"@,
        BinaryOperatorToken::Multiply => "Multiplication Operator (*)"@,
        BinaryOperatorToken::Divide => "Division Operator (/)"@,
        BinaryOperatorToken::Modulus => "Modulus Operator (%)"@,
        BinaryOperatorToken::Exponent => "Exponentiation Operator (^)"@,
    }
}

/// The description of a function name token in error messages.
pub open spec fn spec_function_desc(f: FunctionNameToken) -> Seq<char> {
    match f {
        FunctionNameToken::Max => "Max Function"@,
        FunctionNameToken::Min => "Min Function"@,
    }
}

/// A rational in decimal fraction notation: just the numerator when the
/// denominator is one, `numerator/denominator` otherwise.
pub open spec fn spec_rational_desc(n: int, d: int) -> Seq<char> {
    if d == 1 {
        int_digit_seq(n, 10, false)
    } else {
        int_digit_seq(n, 10, false) + "/"@ + int_digit_seq(d, 10, false)
    }
}

/// The description of a token in error messages.
pub open spec fn spec_token_desc(t: TokenValue) -> Seq<char> {
    match t {
        TokenValue::Variable(s) => "Variable '"@ + s + "'"@,
        TokenValue::AssignmentOperator => "Assignment Operator (=)"@,
        TokenValue::Comma => "Comma"@,
        TokenValue::Number { n, d } => "Number ("@ + spec_rational_desc(n, d) + ")"@,
        TokenValue::OpenParen => "Open Parenthesis"@,
        TokenValue::CloseParen => "Close Parenthesis"@,
        TokenValue::BinaryOperator(op) => spec_binary_op_desc(op),
        TokenValue::UnaryOperator(op) => spec_unary_op_desc(op),
        TokenValue::Function(f) => spec_function_desc(f),
    }
}

impl UnaryOperatorToken {
    /// This operator's description for error messages.
    pub fn describe(&self) -> (r: String)
        ensures
            r@ == spec_unary_op_desc(*self),
    {
        match self {
            UnaryOperatorToken::SquareRoot => String::from_str("Square Root Operator (sqrt)"),
            UnaryOperatorToken::Negate => String::from_str("Negation Operator (-)"),
            UnaryOperatorToken::AbsoluteValue => String::from_str("Absolute Value Operator (abs)"),
        }
    }
}

impl BinaryOperatorToken {
    /// This operator's description for error messages.
    pub fn describe(&self) -> (r: String)
        ensures
            r@ == spec_binary_op_desc(*self),
    {
        match self {
            BinaryOperatorToken::Add => String::from_str("Addition Operator (+)"),
            BinaryOperatorToken::Subtract => String::from_str("Subtraction Operator (-)"),
            BinaryOperatorToken::Multiply => String::from_str("Multiplication Operator (*)"),
            BinaryOperatorToken::Divide => String::from_str("Division Operator (/)"),
            BinaryOperatorToken::Modulus => String::from_str("Modulus Operator (%)"),
            BinaryOperatorToken::Exponent => String::from_str("Exponentiation Operator (^)"),
        }
    }
}

impl FunctionNameToken {
    /// This function name's description for error messages.
    pub fn describe(&self) -> (r: String)
        ensures
            r@ == spec_function_desc(*self),
    {
        match self {
            FunctionNameToken::Max => String::from_str("Max Function"),
            FunctionNameToken::Min => String::from_str("Min Function"),
        }
    }
}

impl Token {
    /// This token's description for error messages.
    pub fn describe(&self) -> (r: String)
        ensures
            r@ == spec_token_desc(self@),
    {
        proof {
            reveal_strlit("Variable '");
            reveal_strlit("'");
            reveal_strlit("Number (");
            reveal_strlit(")");
            reveal_strlit("/");
        }
        match self {
            Token::Variable(s) => {
                let mut m = String::from_str("Variable '");
                m.append(s.as_str());
                m.append("'");
                m
            },
            Token::AssignmentOperator => String::from_str("Assignment Operator (=)"),
            Token::Comma => String::from_str("Comma"),
            Token::Number(v) => {
                let mut m = String::from_str("Number (");
                let numer = crate::numbers::rat_numer_of(v);
                let denom = crate::numbers::rat_denom_of(v);
                let one = crate::numbers::bigint_from_u32(1);
                m.append(crate::digits::format_bigint(&numer, 10, false).as_str());
                if !crate::numbers::bigint_eq(&denom, &one) {
                    m.append("/");
                    m.append(crate::digits::format_bigint(&denom, 10, false).as_str());
                }
                m.append(")");
                m
            },
            Token::OpenParen => String::from_str("Open Parenthesis"),
            Token::CloseParen => String::from_str("Close Parenthesis"),
            Token::BinaryOperator(op) => op.describe(),
            Token::UnaryOperator(op) => op.describe(),
            Token::Function(f) => f.describe(),
        }
    }
}

/// What tokenizing a line of input produced: an expression as tokens, or a
/// command. A command is only split into its name and one raw argument
/// string; downstream collaborators parse the arguments as they need.
#[derive(Debug)]
pub enum ParsedInput {
    Tokens(Vec<crate::position::Positioned<Token>>),
    Command(crate::position::Positioned<String>, crate::position::Positioned<String>),
}

// ---------------------------------------------------------------------------
// The mathematical tokenizer
// ---------------------------------------------------------------------------

use vstd::arithmetic::power::pow;

use crate::errors::{spec_parse_error_message, ParseError, ParseErrorValue};
use crate::numbers::{norm_den, norm_num};
use crate::position::{spec_span, Position, Positioned};

/// ASCII whitespace, the separator between tokens.
pub open spec fn is_ws(c: char) -> bool {
    c == ' ' || c == '\t' || c == '\n' || c == '\x0C' || c == '\r'
}

/// Whitespace as the leading trim of a command line sees it: every white
/// character in the ASCII range.
pub open spec fn is_trim_ws(c: char) -> bool {
    is_ws(c) || c == '\x0B'
}

/// The least index at or after `i` holding a non-ASCII character, or `s.len()`
/// when there is none.
pub open spec fn first_non_ascii_from(s: Seq<char>, i: int) -> int
    decreases s.len() - i,
        when 0 <= i <= s.len()
{
    if i >= s.len() {
        s.len() as int
    } else if !('\0' <= s[i] <= '\u{7f}') {
        i
    } else {
        first_non_ascii_from(s, i + 1)
    }
}

/// The least index at or after `i` whose character is not leading-trim
/// whitespace, or `s.len()`.
pub open spec fn first_non_trim_ws(s: Seq<char>, i: int) -> int
    decreases s.len() - i,
        when 0 <= i <= s.len()
{
    if i >= s.len() {
        s.len() as int
    } else if !is_trim_ws(s[i]) {
        i
    } else {
        first_non_trim_ws(s, i + 1)
    }
}

/// The least index at or after `i` holding ASCII whitespace, or `s.len()`.
pub open spec fn first_ws(s: Seq<char>, i: int) -> int
    decreases s.len() - i,
        when 0 <= i <= s.len()
{
    if i >= s.len() {
        s.len() as int
    } else if is_ws(s[i]) {
        i
    } else {
        first_ws(s, i + 1)
    }
}

/// A command split into name and raw argument text, with their spans.
pub ghost struct CommandSplitValue {
    pub name: Seq<char>,
    pub name_pos: Position,
    pub args: Seq<char>,
    pub args_pos: Position,
}

/// How a command line splits: after leading whitespace a `/` starts the
/// command name, which runs to the first whitespace; everything after that
/// whitespace character is the raw argument string. `None` when the line is
/// not a command.
pub open spec fn spec_command(s: Seq<char>) -> Option<CommandSplitValue> {
    let k = first_non_trim_ws(s, 0);
    if k >= s.len() || s[k] != '/' {
        None
    } else {
        let j = first_ws(s, k + 1);
        if j >= s.len() {
            Some(
                CommandSplitValue {
                    name: s.subrange(k + 1, s.len() as int),
                    name_pos: Position { start: k as usize, width: (s.len() - k) as usize },
                    args: Seq::empty(),
                    args_pos: Position { start: s.len() as usize, width: 0 },
                },
            )
        } else {
            Some(
                CommandSplitValue {
                    name: s.subrange(k + 1, j),
                    name_pos: Position { start: k as usize, width: (j - k) as usize },
                    args: s.subrange(j + 1, s.len() as int),
                    args_pos: Position { start: (j + 1) as usize, width: (s.len() - j - 1) as usize },
                },
            )
        }
    }
}

/// The token one single character stands for, if any.
pub open spec fn spec_single(c: char) -> Option<TokenValue> {
    if c == '+' {
        Some(TokenValue::BinaryOperator(BinaryOperatorToken::Add))
    } else if c == '-' {
        Some(TokenValue::BinaryOperator(BinaryOperatorToken::Subtract))
    } else if c == '*' {
        Some(TokenValue::BinaryOperator(BinaryOperatorToken::Multiply))
    } else if c == '/' {
        Some(TokenValue::BinaryOperator(BinaryOperatorToken::Divide))
    } else if c == '%' {
        Some(TokenValue::BinaryOperator(BinaryOperatorToken::Modulus))
    } else if c == '^' {
        Some(TokenValue::BinaryOperator(BinaryOperatorToken::Exponent))
    } else if c == '(' {
        Some(TokenValue::OpenParen)
    } else if c == ')' {
        Some(TokenValue::CloseParen)
    } else if c == '=' {
        Some(TokenValue::AssignmentOperator)
    } else if c == ',' {
        Some(TokenValue::Comma)
    } else {
        None
    }
}

/// The value of one digit character, `-1` when it is no digit.
pub open spec fn digit_val(c: char) -> int {
    let v = c as int;
    if '0' as int <= v <= '9' as int {
        v - '0' as int
    } else if 'a' as int <= v <= 'z' as int {
        v - 'a' as int + 10
    } else if 'A' as int <= v <= 'Z' as int {
        v - 'A' as int + 10
    } else {
        -1
    }
}

/// Strips `_` separators and the first `.` from a number's text: returns the
/// remaining characters and the index the `.` had among them.
pub open spec fn spec_clean_number(
    buf: Seq<char>,
    i: int,
    acc: Seq<char>,
    dec: Option<int>,
) -> (Seq<char>, Option<int>)
    decreases buf.len() - i,
        when 0 <= i <= buf.len()
{
    if i >= buf.len() {
        (acc, dec)
    } else if buf[i] == '_' {
        spec_clean_number(buf, i + 1, acc, dec)
    } else if buf[i] == '.' && dec is None {
        spec_clean_number(buf, i + 1, acc, Some(acc.len() as int))
    } else {
        spec_clean_number(buf, i + 1, acc.push(buf[i]), dec)
    }
}

/// The value of a digit string read left to right in the given radix, `None`
/// on the first character that is no digit of that radix.
pub open spec fn spec_digits_value(ds: Seq<char>, radix: int, i: int, acc: int) -> Option<int>
    decreases ds.len() - i,
        when 0 <= i <= ds.len()
{
    if i >= ds.len() {
        Some(acc)
    } else {
        let d = digit_val(ds[i]);
        if 0 <= d < radix {
            spec_digits_value(ds, radix, i + 1, acc * radix + d)
        } else {
            None
        }
    }
}

/// The exact rational a number's text stands for, before reduction: the
/// digits (underscores dropped, one `.` allowed) read in the radix as the
/// numerator, and `radix ^ (digits after the point)` as the denominator.
/// `None` when the text is no number in this radix.
pub open spec fn spec_number_value(buf: Seq<char>, radix: int) -> Option<(int, int)> {
    let cleaned = spec_clean_number(buf, 0, Seq::empty(), None);
    let clean = cleaned.0;
    let dec = cleaned.1;
    if clean.len() == 0 {
        None
    } else {
        match spec_digits_value(clean, radix, 0, 0) {
            Some(v) => {
                let d = match dec {
                    Some(di) => pow(radix, (clean.len() - di) as nat),
                    None => 1,
                };
                Some((v, d))
            },
            None => None,
        }
    }
}

/// What flushing the buffered text `s[bstart..bend]` yields: nothing when the
/// buffer is empty; a variable token when it starts with `$`; a keyword token
/// for `sqrt`, `abs`, `max`, `min`; otherwise a number, or an invalid-number
/// error.
pub open spec fn spec_flush(s: Seq<char>, bstart: int, bend: int, radix: int) -> Result<
    Seq<(TokenValue, Position)>,
    (ParseErrorValue, Position),
> {
    if bstart >= bend {
        Ok(Seq::empty())
    } else {
        let buf = s.subrange(bstart, bend);
        let pos = Position { start: bstart as usize, width: (bend - bstart) as usize };
        if buf[0] == '$' {
            Ok(seq![(TokenValue::Variable(buf), pos)])
        } else if buf == "sqrt"@ {
            Ok(seq![(TokenValue::UnaryOperator(UnaryOperatorToken::SquareRoot), pos)])
        } else if buf == "abs"@ {
            Ok(seq![(TokenValue::UnaryOperator(UnaryOperatorToken::AbsoluteValue), pos)])
        } else if buf == "max"@ {
            Ok(seq![(TokenValue::Function(FunctionNameToken::Max), pos)])
        } else if buf == "min"@ {
            Ok(seq![(TokenValue::Function(FunctionNameToken::Min), pos)])
        } else {
            match spec_number_value(buf, radix) {
                Some((n, d)) => Ok(
                    seq![(TokenValue::Number { n: norm_num(n, d), d: norm_den(n, d) }, pos)],
                ),
                None => Err((ParseErrorValue::InvalidNumber(buf), pos)),
            }
        }
    }
}

/// One left-to-right pass over the input: whitespace and single-character
/// tokens flush the pending buffer (`s[bstart..i]`); other characters extend
/// it. `acc` holds the tokens already made.
pub open spec fn spec_expr_tokens(
    s: Seq<char>,
    radix: int,
    i: int,
    bstart: int,
    acc: Seq<(TokenValue, Position)>,
) -> Result<Seq<(TokenValue, Position)>, (ParseErrorValue, Position)>
    decreases s.len() - i,
        when 0 <= i <= s.len()
{
    if i >= s.len() {
        match spec_flush(s, bstart, s.len() as int, radix) {
            Ok(ts) => Ok(acc + ts),
            Err(e) => Err(e),
        }
    } else if is_ws(s[i]) {
        match spec_flush(s, bstart, i, radix) {
            Ok(ts) => spec_expr_tokens(s, radix, i + 1, i + 1, acc + ts),
            Err(e) => Err(e),
        }
    } else {
        match spec_single(s[i]) {
            Some(t) => match spec_flush(s, bstart, i, radix) {
                Ok(ts) => spec_expr_tokens(
                    s,
                    radix,
                    i + 1,
                    i + 1,
                    acc + ts + seq![(t, Position { start: i as usize, width: 1 })],
                ),
                Err(e) => Err(e),
            },
            None => spec_expr_tokens(s, radix, i + 1, bstart, acc),
        }
    }
}

/// The tokens of a whole expression line, with their spans.
pub open spec fn spec_tokenize_expr(s: Seq<char>, radix: int) -> Result<
    Seq<(TokenValue, Position)>,
    (ParseErrorValue, Position),
> {
    spec_expr_tokens(s, radix, 0, 0, Seq::empty())
}

/// The mathematical value of a positioned token.
pub open spec fn ptok_view(p: Positioned<Token>) -> (TokenValue, Position) {
    (p.value@, p.position)
}

/// The mathematical value of a positioned token sequence.
pub open spec fn tokens_view(v: Seq<Positioned<Token>>) -> Seq<(TokenValue, Position)> {
    v.map_values(|p: Positioned<Token>| ptok_view(p))
}

/// Every number token holds a canonical reduced pair.
pub open spec fn tokens_nums_wf(v: Seq<Positioned<Token>>) -> bool {
    forall|k: int|
        0 <= k < v.len() ==> match (#[trigger] v[k].value)@ {
            TokenValue::Number { n, d } => crate::numbers::pair_wf(n, d),
            _ => true,
        }
}

// ---------------------------------------------------------------------------
// The executable tokenizer
// ---------------------------------------------------------------------------

/// Whether `c` is ASCII whitespace.
fn char_is_ws(c: char) -> (r: bool)
    ensures
        r == is_ws(c),
{
    c == ' ' || c == '\t' || c == '\n' || c == '\x0C' || c == '\r'
}

/// Whether two strings hold the same characters.
pub(crate) fn str_eq(a: &str, b: &str) -> (r: bool)
    ensures
        r == (a@ == b@),
{
    let alen = a.unicode_len();
    let blen = b.unicode_len();
    if alen != blen {
        return false;
    }
    let mut i: usize = 0;
    while i < alen
        invariant
            i <= alen,
            alen == a@.len(),
            alen == b@.len(),
            forall|k: int| 0 <= k < i ==> a@[k] == b@[k],
        decreases alen - i,
    {
        if a.get_char(i) != b.get_char(i) {
            return false;
        }
        i = i + 1;
    }
    proof {
        assert(a@ =~= b@);
    }
    true
}

/// The value of one digit character, `-1` when it is no digit.
fn digit_value(c: char) -> (r: i32)
    ensures
        r as int == digit_val(c),
{
    let v = c as u32;
    if v >= '0' as u32 && v <= '9' as u32 {
        (v - '0' as u32) as i32
    } else if v >= 'a' as u32 && v <= 'z' as u32 {
        (v - 'a' as u32) as i32 + 10
    } else if v >= 'A' as u32 && v <= 'Z' as u32 {
        (v - 'A' as u32) as i32 + 10
    } else {
        -1
    }
}

/// The token one single character stands for, if any.
fn single_token(c: char) -> (r: Option<Token>)
    ensures
        match spec_single(c) {
            Some(tv) => r matches Some(t) && t@ == tv,
            None => r is None,
        },
{
    if c == '+' {
        Some(Token::BinaryOperator(BinaryOperatorToken::Add))
    } else if c == '-' {
        Some(Token::BinaryOperator(BinaryOperatorToken::Subtract))
    } else if c == '*' {
        Some(Token::BinaryOperator(BinaryOperatorToken::Multiply))
    } else if c == '/' {
        Some(Token::BinaryOperator(BinaryOperatorToken::Divide))
    } else if c == '%' {
        Some(Token::BinaryOperator(BinaryOperatorToken::Modulus))
    } else if c == '^' {
        Some(Token::BinaryOperator(BinaryOperatorToken::Exponent))
    } else if c == '(' {
        Some(Token::OpenParen)
    } else if c == ')' {
        Some(Token::CloseParen)
    } else if c == '=' {
        Some(Token::AssignmentOperator)
    } else if c == ',' {
        Some(Token::Comma)
    } else {
        None
    }
}

/// Flushes the buffered text `input[bstart..bend]`: classifies it and appends
/// the token it stands for (nothing when the buffer is empty), or reports the
/// invalid-number error `spec_flush` gives.
#[verifier::loop_isolation(false)]
fn flush_buffer(
    input: &str,
    bstart: usize,
    bend: usize,
    radix: u8,
    tokens: &mut Vec<Positioned<Token>>,
) -> (r: Result<(), Positioned<ParseError>>)
    requires
        input.is_ascii(),
        bstart <= bend <= input@.len(),
    ensures
        tokens_nums_wf(old(tokens)@) ==> tokens_nums_wf(final(tokens)@),
        match spec_flush(input@, bstart as int, bend as int, radix as int) {
            Ok(ts) => r is Ok && tokens_view(final(tokens)@) == tokens_view(old(tokens)@) + ts,
            Err(e) => r matches Err(pe) && pe.value@ == e.0 && pe.position == e.1
                && final(tokens)@ == old(tokens)@,
        },
{
    if bstart >= bend {
        proof {
            assert(tokens_view(tokens@) =~= tokens_view(tokens@) + Seq::<(
                TokenValue,
                Position,
            )>::empty());
        }
        return Ok(());
    }
    let ghost pre = tokens_view(tokens@);
    let buf = input.substring_ascii(bstart, bend);
    let width = bend - bstart;

    if buf.get_char(0) == '$' {
        proof {
            reveal_strlit("$");
        }
        tokens.push(
            Positioned::new_raw(Token::Variable(String::from_str(buf)), bstart, width),
        );
        proof {
            assert(tokens_view(tokens@) =~= pre + spec_flush(
                input@,
                bstart as int,
                bend as int,
                radix as int,
            )->Ok_0);
        }
        return Ok(());
    }
    if str_eq(buf, "sqrt") {
        tokens.push(
            Positioned::new_raw(
                Token::UnaryOperator(UnaryOperatorToken::SquareRoot),
                bstart,
                width,
            ),
        );
        proof {
            assert(tokens_view(tokens@) =~= pre + spec_flush(
                input@,
                bstart as int,
                bend as int,
                radix as int,
            )->Ok_0);
        }
        return Ok(());
    }
    if str_eq(buf, "abs") {
        tokens.push(
            Positioned::new_raw(
                Token::UnaryOperator(UnaryOperatorToken::AbsoluteValue),
                bstart,
                width,
            ),
        );
        proof {
            assert(tokens_view(tokens@) =~= pre + spec_flush(
                input@,
                bstart as int,
                bend as int,
                radix as int,
            )->Ok_0);
        }
        return Ok(());
    }
    if str_eq(buf, "max") {
        tokens.push(
            Positioned::new_raw(Token::Function(FunctionNameToken::Max), bstart, width),
        );
        proof {
            assert(tokens_view(tokens@) =~= pre + spec_flush(
                input@,
                bstart as int,
                bend as int,
                radix as int,
            )->Ok_0);
        }
        return Ok(());
    }
    if str_eq(buf, "min") {
        tokens.push(
            Positioned::new_raw(Token::Function(FunctionNameToken::Min), bstart, width),
        );
        proof {
            assert(tokens_view(tokens@) =~= pre + spec_flush(
                input@,
                bstart as int,
                bend as int,
                radix as int,
            )->Ok_0);
        }
        return Ok(());
    }

    // The buffer must be a number. Strip underscores and note the first
    // decimal point.
    let mut clean: Vec<char> = Vec::new();
    let mut dec: Option<usize> = None;
    let mut j: usize = 0;
    while j < width
        invariant
            j <= width,
            width == buf@.len(),
            clean@.len() <= j,
            dec matches Some(di) ==> di <= clean@.len(),
            spec_clean_number(
                buf@,
                j as int,
                clean@,
                match dec {
                    Some(di) => Some(di as int),
                    None => None,
                },
            ) == spec_clean_number(buf@, 0, Seq::empty(), None),
        decreases width - j,
    {
        let c = buf.get_char(j);
        if c == '_' {
        } else if c == '.' && dec.is_none() {
            dec = Some(clean.len());
        } else {
            clean.push(c);
        }
        j = j + 1;
    }
    let ghost cleaned = spec_clean_number(buf@, 0, Seq::empty(), None);
    proof {
        assert(cleaned.0 == clean@ && cleaned.1 == match dec {
            Some(di) => Some(di as int),
            None => None,
        });
    }

    if clean.len() == 0 {
        let perr = Positioned::new_raw(
            ParseError::InvalidNumber(String::from_str(buf)),
            bstart,
            width,
        );
        proof {
            let fl = spec_flush(input@, bstart as int, bend as int, radix as int);
            assert(fl is Err);
            assert(perr.value@ == fl->Err_0.0);
            assert(perr.position == fl->Err_0.1);
            assert(tokens@ == old(tokens)@);
        }
        return Err(perr);
    }

    // Read the digits in the radix.
    let big_radix = crate::numbers::bigint_from_u32(radix as u32);
    let mut acc = crate::numbers::bigint_from_u32(0);
    let mut k: usize = 0;
    while k < clean.len()
        invariant
            k <= clean@.len(),
            crate::numbers::bi_val(big_radix) == radix as int,
            spec_digits_value(clean@, radix as int, k as int, crate::numbers::bi_val(acc))
                == spec_digits_value(clean@, radix as int, 0, 0),
            k > 0 ==> radix >= 1,
        decreases clean@.len() - k,
    {
        let d = digit_value(clean[k]);
        if d < 0 || d >= radix as i32 {
            return Err(
                Positioned::new_raw(
                    ParseError::InvalidNumber(String::from_str(buf)),
                    bstart,
                    width,
                ),
            );
        }
        let scaled = crate::numbers::bigint_mul(&acc, &big_radix);
        acc = crate::numbers::bigint_add(&scaled, &crate::numbers::bigint_from_u32(d as u32));
        k = k + 1;
    }

    // The digits were all valid: build numerator / radix^(fractional digits).
    let denom = match dec {
        None => crate::numbers::bigint_from_u32(1),
        Some(di) => {
            proof {
                vstd::arithmetic::power::lemma_pow_positive(
                    radix as int,
                    (clean@.len() - di) as nat,
                );
            }
            crate::numbers::bigint_pow_usize(&big_radix, clean.len() - di)
        },
    };
    let value = crate::numbers::rat_new(acc, denom);
    tokens.push(Positioned::new_raw(Token::Number(value), bstart, width));
    proof {
        assert(tokens_view(tokens@) =~= pre + spec_flush(
            input@,
            bstart as int,
            bend as int,
            radix as int,
        )->Ok_0);
    }
    Ok(())
}

/// The expression tokenizer.
pub struct Tokenizer {}

impl Tokenizer {
    pub fn new() -> (r: Tokenizer) {
        Tokenizer {  }
    }

    /// Splits the input as a command, if stripped of leading whitespace it
    /// starts with `/`.
    fn maybe_extract_command(&self, input: &str) -> (r: Option<ParsedInput>)
        requires
            input.is_ascii(),
        ensures
            match spec_command(input@) {
                Some(c) => r matches Some(p) && p matches ParsedInput::Command(name, args)
                    && name.value@ == c.name && name.position == c.name_pos && args.value@
                    == c.args && args.position == c.args_pos,
                None => r is None,
            },
    {
        let n = input.unicode_len();
        let mut k: usize = 0;
        while k < n
            invariant
                k <= n,
                n == input@.len(),
                first_non_trim_ws(input@, 0) == first_non_trim_ws(input@, k as int),
            ensures
                k <= n,
                first_non_trim_ws(input@, 0) == k as int,
            decreases n - k,
        {
            let c = input.get_char(k);
            if !(char_is_ws(c) || c == '\x0B') {
                proof {
                    assert(first_non_trim_ws(input@, k as int) == k as int);
                }
                break;
            }
            k = k + 1;
        }
        if k >= n {
            return None;
        }
        if input.get_char(k) != '/' {
            return None;
        }

        let mut j: usize = k + 1;
        while j < n
            invariant
                k + 1 <= j <= n,
                n == input@.len(),
                first_ws(input@, k as int + 1) == first_ws(input@, j as int),
            ensures
                k + 1 <= j <= n,
                first_ws(input@, k as int + 1) == j as int,
            decreases n - j,
        {
            let c = input.get_char(j);
            if char_is_ws(c) {
                proof {
                    assert(first_ws(input@, j as int) == j as int);
                }
                break;
            }
            j = j + 1;
        }

        if j >= n {
            let name = Positioned::new_raw(
                String::from_str(input.substring_ascii(k + 1, n)),
                k,
                n - k,
            );
            let args = Positioned::new_raw(String::from_str(""), n, 0);
            proof {
                reveal_strlit("");
            }
            Some(ParsedInput::Command(name, args))
        } else {
            let name = Positioned::new_raw(
                String::from_str(input.substring_ascii(k + 1, j)),
                k,
                j - k,
            );
            let args = Positioned::new_raw(
                String::from_str(input.substring_ascii(j + 1, n)),
                j + 1,
                n - (j + 1),
            );
            Some(ParsedInput::Command(name, args))
        }
    }

    /// Turns one line of input into a command or a positioned token sequence.
    ///
    /// Rejects any non-ASCII input with `NonAscii` at the first offending
    /// character, before all other processing. A line starting with `/` after
    /// optional whitespace is a command and is not tokenized further. Anything
    /// else becomes the token sequence `spec_tokenize_expr` describes; every
    /// `-` is emitted as the subtraction operator, and reinterpreting some of
    /// them as negation is solely the syntax-tree builder's concern.
    #[verifier::loop_isolation(false)]
    pub fn tokenize(&self, input: &str, radix: u8) -> (r: Result<
        ParsedInput,
        Positioned<ParseError>,
    >)
        ensures
            !vstd::utf8::is_ascii_chars(input@) ==> (r matches Err(e) && e.value@
                == ParseErrorValue::NonAscii && e.position == (Position {
                start: first_non_ascii_from(input@, 0) as usize,
                width: 1,
            })),
            vstd::utf8::is_ascii_chars(input@) ==> match spec_command(input@) {
                Some(c) => r matches Ok(p) && p matches ParsedInput::Command(name, args)
                    && name.value@ == c.name && name.position == c.name_pos && args.value@
                    == c.args && args.position == c.args_pos,
                None => match spec_tokenize_expr(input@, radix as int) {
                    Ok(ts) => r matches Ok(p) && p matches ParsedInput::Tokens(v)
                        && tokens_view(v@) == ts && tokens_nums_wf(v@),
                    Err(e) => r matches Err(pe) && pe.value@ == e.0 && pe.position == e.1,
                },
            },
    {
        let n = input.unicode_len();

        // Any non-ASCII character is rejected before all other processing.
        let mut i: usize = 0;
        while i < n
            invariant
                i <= n,
                n == input@.len(),
                first_non_ascii_from(input@, 0) == first_non_ascii_from(input@, i as int),
                forall|k: int| 0 <= k < i ==> '\0' <= #[trigger] input@[k] <= '\u{7f}',
            decreases n - i,
        {
            let c = input.get_char(i);
            if c as u32 >= 128 {
                proof {
                    assert(!('\0' <= input@[i as int] <= '\u{7f}'));
                    assert(first_non_ascii_from(input@, i as int) == i as int);
                }
                return Err(Positioned::new_raw(ParseError::NonAscii, i, 1));
            }
            i = i + 1;
        }
        proof {
            assert(vstd::utf8::is_ascii_chars(input@));
        }

        if let Some(command) = self.maybe_extract_command(input) {
            return Ok(command);
        }

        // A single left-to-right pass; multi-character tokens are buffered as
        // the span `input[bstart..i]` until whitespace or a single-character
        // token flushes them.
        let mut tokens: Vec<Positioned<Token>> = Vec::new();
        let mut bstart: usize = 0;
        let mut i: usize = 0;
        while i < n
            invariant
                bstart <= i <= n,
                n == input@.len(),
                input.is_ascii(),
                tokens_nums_wf(tokens@),
                spec_expr_tokens(
                    input@,
                    radix as int,
                    i as int,
                    bstart as int,
                    tokens_view(tokens@),
                ) == spec_tokenize_expr(input@, radix as int),
            decreases n - i,
        {
            let ghost acc0 = tokens_view(tokens@);
            let ghost b0 = bstart as int;
            let c = input.get_char(i);
            if char_is_ws(c) {
                match flush_buffer(input, bstart, i, radix, &mut tokens) {
                    Ok(()) => {},
                    Err(e) => {
                        return Err(e);
                    },
                }
                proof {
                    assert(spec_expr_tokens(input@, radix as int, i as int, b0, acc0)
                        == spec_expr_tokens(
                        input@,
                        radix as int,
                        i as int + 1,
                        i as int + 1,
                        tokens_view(tokens@),
                    ));
                }
                bstart = i + 1;
            } else {
                match single_token(c) {
                    Some(t) => {
                        match flush_buffer(input, bstart, i, radix, &mut tokens) {
                            Ok(()) => {},
                            Err(e) => {
                                return Err(e);
                            },
                        }
                        let ghost acc1 = tokens_view(tokens@);
                        tokens.push(Positioned::new_raw(t, i, 1));
                        proof {
                            assert(tokens_view(tokens@) =~= acc1 + seq![
                                (
                                    spec_single(input@[i as int])->Some_0,
                                    Position { start: i as usize, width: 1 },
                                )
                            ]);
                            assert(spec_expr_tokens(input@, radix as int, i as int, b0, acc0)
                                == spec_expr_tokens(
                                input@,
                                radix as int,
                                i as int + 1,
                                i as int + 1,
                                tokens_view(tokens@),
                            ));
                        }
                        bstart = i + 1;
                    },
                    None => {
                        proof {
                            assert(spec_expr_tokens(input@, radix as int, i as int, b0, acc0)
                                == spec_expr_tokens(
                                input@,
                                radix as int,
                                i as int + 1,
                                b0,
                                acc0,
                            ));
                        }
                    },
                }
            }
            i = i + 1;
        }
        match flush_buffer(input, bstart, n, radix, &mut tokens) {
            Ok(()) => {},
            Err(e) => {
                return Err(e);
            },
        }
        Ok(ParsedInput::Tokens(tokens))
    }

    /// Tokenizes the input and requires every token to be a variable,
    /// returning the positioned names. Anything else, including a command, is
    /// rejected with the message and position `spec_variable_list` gives.
    #[verifier::loop_isolation(false)]
    pub fn tokenize_variable_list(&self, input: &str) -> (r: Result<
        Vec<Positioned<String>>,
        Positioned<String>,
    >)
        ensures
            match spec_variable_list(input@) {
                Ok(l) => r matches Ok(v) && pstrs_view(v@) == l,
                Err(m) => r matches Err(p) && p.value@ == m.0 && p.position == m.1,
            },
    {
        proof {
            reveal_strlit("/");
            reveal_strlit("Expected variable, found ");
        }
        // The radix is meaningless for a variable list, but 10 keeps the
        // error messages reasonable.
        let tokens = match self.tokenize(input, 10) {
            Err(pe) => {
                let msg = match pe.value {
                    ParseError::NonAscii => ParseError::NonAscii.message(),
                    ParseError::InvalidNumber(s) => ParseError::InvalidVariable(s).message(),
                    ParseError::InvalidVariable(s) => ParseError::InvalidVariable(s).message(),
                };
                return Err(Positioned::new(msg, pe.position));
            },
            Ok(ParsedInput::Command(name, _)) => {
                let mut text = String::from_str("/");
                text.append(name.value.as_str());
                let msg = ParseError::InvalidVariable(text).message();
                return Err(Positioned::new(msg, name.position));
            },
            Ok(ParsedInput::Tokens(t)) => t,
        };

        let ghost tv = tokens_view(tokens@);
        let mut result: Vec<Positioned<String>> = Vec::new();
        let mut idx: usize = 0;
        while idx < tokens.len()
            invariant
                idx <= tokens@.len(),
                tv == tokens_view(tokens@),
                spec_var_list(tv, 0) == (match spec_var_list(tv, idx as int) {
                    Ok(rest) => Ok::<_, (Seq<char>, Position)>(pstrs_view(result@) + rest),
                    Err(e) => Err(e),
                }),
            decreases tokens@.len() - idx,
        {
            let ghost done = pstrs_view(result@);
            let pt = &tokens[idx];
            match &pt.value {
                Token::Variable(s) => {
                    result.push(Positioned::new(String::from_str(s.as_str()), pt.position));
                    proof {
                        assert(pstrs_view(result@) =~= done + seq![
                            (s@, tokens_view(tokens@)[idx as int].1)
                        ]);
                        if spec_var_list(tv, idx as int + 1) is Ok {
                            assert(done + (seq![(s@, tv[idx as int].1)] + spec_var_list(
                                tv,
                                idx as int + 1,
                            )->Ok_0) =~= pstrs_view(result@) + spec_var_list(
                                tv,
                                idx as int + 1,
                            )->Ok_0);
                        }
                    }
                },
                _ => {
                    let mut msg = String::from_str("Expected variable, found ");
                    msg.append(pt.value.describe().as_str());
                    return Err(Positioned::new(msg, pt.position));
                },
            }
            idx = idx + 1;
        }
        proof {
            assert(pstrs_view(result@) =~= pstrs_view(result@) + Seq::<(
                Seq<char>,
                Position,
            )>::empty());
        }
        Ok(result)
    }

    /// Tokenizes the input and requires every token to be an integer-valued
    /// number fitting a 64-bit signed value, optionally preceded by a single
    /// `-` sign. Decimals, double signs, trailing signs and any other token
    /// are rejected with the message and position `spec_integer_list` gives.
    #[verifier::loop_isolation(false)]
    pub fn tokenize_int_list(&self, input: &str, radix: u8) -> (r: Result<
        Vec<Positioned<i64>>,
        Positioned<String>,
    >)
        ensures
            match spec_integer_list(input@, radix as int) {
                Ok(l) => r matches Ok(v) && pints_view(v@) == l,
                Err(m) => r matches Err(p) && p.value@ == m.0 && p.position == m.1,
            },
    {
        proof {
            reveal_strlit("/");
            reveal_strlit("Expected integer, found ");
            reveal_strlit("Expected an integer, found decimal: ");
            reveal_strlit("Value must be representable as a 64-bit signed integer");
            reveal_strlit("Two negative signs in a row");
            reveal_strlit("Found negative sign without value");
        }
        let tokens = match self.tokenize(input, radix) {
            Err(pe) => {
                let msg = match pe.value {
                    ParseError::NonAscii => ParseError::NonAscii.message(),
                    ParseError::InvalidNumber(s) => ParseError::InvalidVariable(s).message(),
                    ParseError::InvalidVariable(s) => ParseError::InvalidVariable(s).message(),
                };
                return Err(Positioned::new(msg, pe.position));
            },
            Ok(ParsedInput::Command(name, _)) => {
                let mut text = String::from_str("/");
                text.append(name.value.as_str());
                let msg = ParseError::InvalidNumber(text).message();
                return Err(Positioned::new(msg, name.position));
            },
            Ok(ParsedInput::Tokens(t)) => t,
        };
        proof {
            lemma_expr_tokens_positions_bounded(input@, radix as int, 0, 0, Seq::empty());
        }

        let input_len = input.unicode_len();
        let ghost n_bound: int = input@.len() as int;
        let ghost tv = tokens_view(tokens@);
        let mut result: Vec<Positioned<i64>> = Vec::new();
        let mut pending_neg: Option<Position> = None;
        let mut idx: usize = 0;
        while idx < tokens.len()
            invariant
                idx <= tokens@.len(),
                tv == tokens_view(tokens@),
                n_bound == input@.len(),
                n_bound <= usize::MAX,
                forall|k: int| 0 <= k < tv.len() ==> pos_bounded(#[trigger] tv[k].1, n_bound),
                pending_neg matches Some(p) ==> pos_bounded(p, n_bound),
                spec_int_list(tv, 0, None) == (match spec_int_list(
                    tv,
                    idx as int,
                    match pending_neg {
                        Some(p) => Some(p),
                        None => None,
                    },
                ) {
                    Ok(rest) => Ok::<_, (Seq<char>, Position)>(pints_view(result@) + rest),
                    Err(e) => Err(e),
                }),
            decreases tokens@.len() - idx,
        {
            let ghost done = pints_view(result@);
            let pt = &tokens[idx];
            match &pt.value {
                Token::Number(number) => {
                    let denom = crate::numbers::rat_denom_of(number);
                    let one = crate::numbers::bigint_from_u32(1);
                    if !crate::numbers::bigint_eq(&denom, &one) {
                        let mut msg = String::from_str("Expected an integer, found decimal: ");
                        let numer = crate::numbers::rat_numer_of(number);
                        msg.append(crate::digits::format_bigint(&numer, 10, false).as_str());
                        msg.append("/");
                        msg.append(crate::digits::format_bigint(&denom, 10, false).as_str());
                        return Err(Positioned::new(msg, pt.position));
                    }
                    let numer = crate::numbers::rat_numer_of(number);
                    let small = match crate::numbers::bigint_to_i64(&numer) {
                        None => {
                            return Err(
                                Positioned::new(
                                    String::from_str(
                                        "Value must be representable as a 64-bit signed integer",
                                    ),
                                    pt.position,
                                ),
                            );
                        },
                        Some(v) => v,
                    };
                    if small == i64::MIN {
                        return Err(
                            Positioned::new(
                                String::from_str(
                                    "Value must be representable as a 64-bit signed integer",
                                ),
                                pt.position,
                            ),
                        );
                    }
                    proof {
                        assert(pos_bounded(tv[idx as int].1, n_bound));
                    }
                    match pending_neg {
                        Some(neg_pos) => {
                            result.push(Positioned::new_span(-small, neg_pos, pt.position));
                            pending_neg = None;
                        },
                        None => {
                            result.push(Positioned::new(small, pt.position));
                        },
                    }
                    proof {
                        let rest0 = spec_int_list(tv, idx as int + 1, None);
                        if rest0 is Ok {
                            assert(pints_view(result@) =~= done + seq![
                                pint_view(result@[result@.len() - 1])
                            ]);
                            assert(done + (seq![pint_view(result@[result@.len() - 1])]
                                + rest0->Ok_0) =~= pints_view(result@) + rest0->Ok_0);
                        }
                    }
                },
                Token::BinaryOperator(BinaryOperatorToken::Subtract) => {
                    proof {
                        assert(pos_bounded(tv[idx as int].1, n_bound));
                    }
                    match pending_neg {
                        Some(prev_pos) => {
                            return Err(
                                Positioned::new_span(
                                    String::from_str("Two negative signs in a row"),
                                    prev_pos,
                                    pt.position,
                                ),
                            );
                        },
                        None => {
                            pending_neg = Some(pt.position);
                        },
                    }
                },
                _ => {
                    let mut msg = String::from_str("Expected integer, found ");
                    msg.append(pt.value.describe().as_str());
                    return Err(Positioned::new(msg, pt.position));
                },
            }
            idx = idx + 1;
        }
        match pending_neg {
            Some(neg_pos) => Err(
                Positioned::new(String::from_str("Found negative sign without value"), neg_pos),
            ),
            None => {
                proof {
                    assert(pints_view(result@) =~= pints_view(result@) + Seq::<(
                        int,
                        Position,
                    )>::empty());
                }
                Ok(result)
            },
        }
    }
}

// ---------------------------------------------------------------------------
// Derived entry points: variable lists and integer lists
// ---------------------------------------------------------------------------

/// Whether a span lies inside an input of length `n`.
pub open spec fn pos_bounded(p: Position, n: int) -> bool {
    p.start + p.width <= n
}

/// All token spans a flush yields lie inside the input.
proof fn lemma_flush_positions_bounded(s: Seq<char>, bstart: int, bend: int, radix: int)
    requires
        0 <= bstart <= bend <= s.len(),
    ensures
        spec_flush(s, bstart, bend, radix) matches Ok(ts) ==> forall|k: int|
            0 <= k < ts.len() ==> pos_bounded(#[trigger] ts[k].1, s.len() as int),
{
}

/// All token spans the tokenizer yields lie inside the input.
proof fn lemma_expr_tokens_positions_bounded(
    s: Seq<char>,
    radix: int,
    i: int,
    bstart: int,
    acc: Seq<(TokenValue, Position)>,
)
    requires
        0 <= bstart <= i <= s.len(),
        forall|k: int| 0 <= k < acc.len() ==> pos_bounded(#[trigger] acc[k].1, s.len() as int),
    ensures
        spec_expr_tokens(s, radix, i, bstart, acc) matches Ok(ts) ==> forall|k: int|
            0 <= k < ts.len() ==> pos_bounded(#[trigger] ts[k].1, s.len() as int),
    decreases s.len() - i,
{
    lemma_flush_positions_bounded(s, bstart, if i >= s.len() { s.len() as int } else { i }, radix);
    if i < s.len() {
        if is_ws(s[i]) {
            match spec_flush(s, bstart, i, radix) {
                Ok(ts) => {
                    lemma_expr_tokens_positions_bounded(s, radix, i + 1, i + 1, acc + ts);
                },
                Err(_) => {},
            }
        } else {
            match spec_single(s[i]) {
                Some(t) => {
                    match spec_flush(s, bstart, i, radix) {
                        Ok(ts) => {
                            lemma_expr_tokens_positions_bounded(
                                s,
                                radix,
                                i + 1,
                                i + 1,
                                acc + ts + seq![(t, Position { start: i as usize, width: 1 })],
                            );
                        },
                        Err(_) => {},
                    }
                },
                None => {
                    lemma_expr_tokens_positions_bounded(s, radix, i + 1, bstart, acc);
                },
            }
        }
    }
}

/// The names of a token sequence read as a variable list: every token must be
/// a variable. The first token that is not gives the error.
pub open spec fn spec_var_list(ts: Seq<(TokenValue, Position)>, i: int) -> Result<
    Seq<(Seq<char>, Position)>,
    (Seq<char>, Position),
>
    decreases ts.len() - i,
    when 0 <= i <= ts.len()
{
    if i >= ts.len() {
        Ok(Seq::empty())
    } else {
        match ts[i].0 {
            TokenValue::Variable(s) => match spec_var_list(ts, i + 1) {
                Ok(rest) => Ok(seq![(s, ts[i].1)] + rest),
                Err(e) => Err(e),
            },
            t => Err(("Expected variable, found "@ + spec_token_desc(t), ts[i].1)),
        }
    }
}

/// What `tokenize_variable_list` yields for a whole input line: the positioned
/// variable names, or the first error's message and position.
pub open spec fn spec_variable_list(s: Seq<char>) -> Result<
    Seq<(Seq<char>, Position)>,
    (Seq<char>, Position),
> {
    if !vstd::utf8::is_ascii_chars(s) {
        Err(
            (
                spec_parse_error_message(ParseErrorValue::NonAscii),
                Position { start: first_non_ascii_from(s, 0) as usize, width: 1 },
            ),
        )
    } else {
        match spec_command(s) {
            Some(c) => Err(
                (
                    spec_parse_error_message(
                        ParseErrorValue::InvalidVariable(seq!['/'] + c.name),
                    ),
                    c.name_pos,
                ),
            ),
            None => match spec_tokenize_expr(s, 10) {
                Ok(ts) => spec_var_list(ts, 0),
                Err(e) => Err(
                    (
                        match e.0 {
                            ParseErrorValue::NonAscii => spec_parse_error_message(
                                ParseErrorValue::NonAscii,
                            ),
                            ParseErrorValue::InvalidNumber(t) => spec_parse_error_message(
                                ParseErrorValue::InvalidVariable(t),
                            ),
                            ParseErrorValue::InvalidVariable(t) => spec_parse_error_message(
                                ParseErrorValue::InvalidVariable(t),
                            ),
                        },
                        e.1,
                    ),
                ),
            },
        }
    }
}

/// The mathematical value of a positioned string.
pub open spec fn pstr_view(p: Positioned<String>) -> (Seq<char>, Position) {
    (p.value@, p.position)
}

/// The mathematical value of a positioned string sequence.
pub open spec fn pstrs_view(v: Seq<Positioned<String>>) -> Seq<(Seq<char>, Position)> {
    v.map_values(|p: Positioned<String>| pstr_view(p))
}

/// The integers of a token sequence read as an integer list: integer-valued
/// numbers that fit a 64-bit signed value, each optionally preceded by one
/// `-` sign. `pending` is the span of a sign waiting for its number.
pub open spec fn spec_int_list(
    ts: Seq<(TokenValue, Position)>,
    i: int,
    pending: Option<Position>,
) -> Result<Seq<(int, Position)>, (Seq<char>, Position)>
    decreases ts.len() - i,
    when 0 <= i <= ts.len()
{
    if i >= ts.len() {
        match pending {
            Some(p) => Err(("Found negative sign without value"@, p)),
            None => Ok(Seq::empty()),
        }
    } else {
        let pos = ts[i].1;
        match ts[i].0 {
            TokenValue::Number { n, d } => {
                if d != 1 {
                    Err(("Expected an integer, found decimal: "@ + spec_rational_desc(n, d), pos))
                } else if n < -(i64::MAX as int) || n > i64::MAX as int {
                    Err(("Value must be representable as a 64-bit signed integer"@, pos))
                } else {
                    match spec_int_list(ts, i + 1, None) {
                        Ok(rest) => match pending {
                            Some(np) => Ok(seq![(-n, spec_span(np, pos))] + rest),
                            None => Ok(seq![(n, pos)] + rest),
                        },
                        Err(e) => Err(e),
                    }
                }
            },
            TokenValue::BinaryOperator(BinaryOperatorToken::Subtract) => {
                match pending {
                    Some(pp) => Err(("Two negative signs in a row"@, spec_span(pp, pos))),
                    None => spec_int_list(ts, i + 1, Some(pos)),
                }
            },
            t => Err(("Expected integer, found "@ + spec_token_desc(t), pos)),
        }
    }
}

/// What `tokenize_int_list` yields for a whole input line.
pub open spec fn spec_integer_list(s: Seq<char>, radix: int) -> Result<
    Seq<(int, Position)>,
    (Seq<char>, Position),
> {
    if !vstd::utf8::is_ascii_chars(s) {
        Err(
            (
                spec_parse_error_message(ParseErrorValue::NonAscii),
                Position { start: first_non_ascii_from(s, 0) as usize, width: 1 },
            ),
        )
    } else {
        match spec_command(s) {
            Some(c) => Err(
                (
                    spec_parse_error_message(ParseErrorValue::InvalidNumber(seq!['/'] + c.name)),
                    c.name_pos,
                ),
            ),
            None => match spec_tokenize_expr(s, radix) {
                Ok(ts) => spec_int_list(ts, 0, None),
                Err(e) => Err(
                    (
                        match e.0 {
                            ParseErrorValue::NonAscii => spec_parse_error_message(
                                ParseErrorValue::NonAscii,
                            ),
                            ParseErrorValue::InvalidNumber(t) => spec_parse_error_message(
                                ParseErrorValue::InvalidVariable(t),
                            ),
                            ParseErrorValue::InvalidVariable(t) => spec_parse_error_message(
                                ParseErrorValue::InvalidVariable(t),
                            ),
                        },
                        e.1,
                    ),
                ),
            },
        }
    }
}

/// The mathematical value of a positioned 64-bit integer.
pub open spec fn pint_view(p: Positioned<i64>) -> (int, Position) {
    (p.value as int, p.position)
}

/// The mathematical value of a positioned 64-bit integer sequence.
pub open spec fn pints_view(v: Seq<Positioned<i64>>) -> Seq<(int, Position)> {
    v.map_values(|p: Positioned<i64>| pint_view(p))
}

} // verus!
