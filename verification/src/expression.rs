//! Numbers, operations and expressions: their grammar and their evaluation.

use crate::utilities::{
    expected_digits, extract_digits, extract_whitespace, lemma_run_len, run_len, tag, CharClass,
};
use crate::value::Value;
use vstd::prelude::*;
use vstd::std_specs::iter::IteratorSpec;

verus! {

broadcast use vstd::string::group_string_axioms;

/// The model of a parser's result: views in place of slices and strings.
pub open spec fn parsed<T>(r: Result<(&str, T), String>) -> Result<(Seq<char>, T), Seq<char>> {
    match r {
        Ok((remainder, node)) => Ok((remainder@, node)),
        Err(message) => Err(message@),
    }
}

pub open spec fn number_out_of_range() -> Seq<char> {
    "Number out of range"@
}

pub open spec fn expected_operator() -> Seq<char> {
    "Expected operator"@
}

pub open spec fn division_by_zero() -> Seq<char> {
    "Division by zero"@
}

pub open spec fn digit_value(c: char) -> nat {
    (c as int - '0' as int) as nat
}

/// The number that a string of decimal digits writes.
pub open spec fn decimal_value(digits: Seq<char>) -> nat
    decreases digits.len(),
{
    if digits.len() == 0 {
        0
    } else {
        decimal_value(digits.drop_last()) * 10 + digit_value(digits.last())
    }
}

/// A prefix of a digit string writes no larger a number than the whole.
pub proof fn lemma_decimal_value_prefix(digits: Seq<char>, k: int)
    requires
        0 <= k <= digits.len(),
    ensures
        decimal_value(digits.take(k)) <= decimal_value(digits),
    decreases digits.len(),
{
    if k == digits.len() {
        assert(digits.take(k) =~= digits);
    } else {
        lemma_decimal_value_prefix(digits.drop_last(), k);
        assert(digits.drop_last().take(k) =~= digits.take(k));
    }
}

/// The source without its leading spaces.
pub open spec fn skip_spaces(s: Seq<char>) -> Seq<char> {
    s.skip(run_len(s, CharClass::Space) as int)
}

/// A literal. The parser yields none below zero, since the grammar has no
/// sign.
#[derive(Clone, Copy, Debug, PartialEq, Eq, Structural)]
pub struct Number(pub i32);

impl Number {
    /// The grammar of a number: the longest run of digits at the head, read
    /// in base ten. No digit is an error, and so is a number above
    /// `i32::MAX`.
    pub open spec fn parse(s: Seq<char>) -> Result<(Seq<char>, Number), Seq<char>> {
        let n = run_len(s, CharClass::Digit) as int;
        if n == 0 {
            Err(expected_digits())
        } else if decimal_value(s.take(n)) > i32::MAX {
            Err(number_out_of_range())
        } else {
            Ok((s.skip(n), Number(decimal_value(s.take(n)) as i32)))
        }
    }

    pub fn new<'a>(source: &'a str) -> (r: Result<(&'a str, Self), String>)
        ensures
            parsed(r) == Self::parse(source@),
    {
        let (remainder, digits) = match extract_digits(source) {
            Ok(split) => split,
            Err(message) => { return Err(message); },
        };
        proof {
            lemma_run_len(source@, CharClass::Digit);
        }
        match digits_to_i32(digits) {
            Some(n) => Ok((remainder, Number(n))),
            None => Err(String::from_str("Number out of range")),
        }
    }
}

/// Reads a string of digits in base ten; `None` where the number does not fit.
fn digits_to_i32(digits: &str) -> (r: Option<i32>)
    requires
        forall|i: int| 0 <= i < digits@.len() ==> crate::utilities::is_digit(#[trigger] digits@[i]),
    ensures
        r == if decimal_value(digits@) > i32::MAX {
            None
        } else {
            Some(decimal_value(digits@) as i32)
        },
{
    let len: usize = digits.unicode_len();
    let mut chars = digits.chars();
    let mut value: i64 = 0;
    let mut i: usize = 0;
    while i < len
        invariant
            i <= len,
            len == digits@.len(),
            chars.remaining() == digits@.skip(i as int),
            forall|j: int|
                0 <= j < digits@.len() ==> crate::utilities::is_digit(#[trigger] digits@[j]),
            value == decimal_value(digits@.take(i as int)),
            value <= i32::MAX,
        decreases len - i,
    {
        let c: char = match chars.next() {
            Some(c) => c,
            None => vstd::pervasive::unreached(),
        };
        let d: i64 = (c as u32 - '0' as u32) as i64;
        proof {
            assert(c == digits@[i as int]);
            assert(digits@.skip(i as int).drop_first() =~= digits@.skip(i + 1));
            assert(digits@.take(i + 1).drop_last() =~= digits@.take(i as int));
            assert(digits@.take(i + 1).last() == digits@[i as int]);
            lemma_decimal_value_prefix(digits@, i + 1);
        }
        value = value * 10 + d;
        if value > 2147483647 {
            return None;
        }
        i += 1;
    }
    proof {
        assert(digits@.take(len as int) =~= digits@);
    }
    Some(value as i32)
}

/// The four arithmetic operations.
#[derive(Clone, Copy, Debug, PartialEq, Eq, Structural)]
pub enum Operation {
    Add,
    Sub,
    Mul,
    Div,
}

/// Integer division that rounds towards zero.
pub open spec fn quotient(a: int, b: int) -> int
    recommends
        b != 0,
{
    if a >= 0 && b > 0 {
        a / b
    } else if a < 0 && b < 0 {
        (-a) / (-b)
    } else if a < 0 {
        -((-a) / b)
    } else {
        -(a / (-b))
    }
}

/// The value in the range of `i32` that differs from `x` by a multiple of
/// 2^32: what 32-bit two's complement arithmetic keeps of `x`.
pub open spec fn wrap(x: int) -> int {
    let m = x % 0x1_0000_0000;
    if m > i32::MAX {
        m - 0x1_0000_0000
    } else {
        m
    }
}

impl Operation {
    /// The symbol that writes the operation.
    pub open spec fn symbol(self) -> char {
        match self {
            Operation::Add => '+',
            Operation::Sub => '-',
            Operation::Mul => '*',
            Operation::Div => '/',
        }
    }

    /// The grammar of an operation: one of the four symbols at the head.
    pub open spec fn parse(s: Seq<char>) -> Result<(Seq<char>, Operation), Seq<char>> {
        if s.len() > 0 && s[0] == '+' {
            Ok((s.skip(1), Operation::Add))
        } else if s.len() > 0 && s[0] == '-' {
            Ok((s.skip(1), Operation::Sub))
        } else if s.len() > 0 && s[0] == '*' {
            Ok((s.skip(1), Operation::Mul))
        } else if s.len() > 0 && s[0] == '/' {
            Ok((s.skip(1), Operation::Div))
        } else {
            Err(expected_operator())
        }
    }

    /// The exact result of the operation on integers.
    pub open spec fn apply(self, a: int, b: int) -> int
        recommends
            self == Operation::Div ==> b != 0,
    {
        match self {
            Operation::Add => a + b,
            Operation::Sub => a - b,
            Operation::Mul => a * b,
            Operation::Div => quotient(a, b),
        }
    }

    pub fn new<'a>(source: &'a str) -> (r: Result<(&'a str, Self), String>)
        ensures
            parsed(r) == Self::parse(source@),
    {
        proof {
            lemma_symbol_tags(source@);
        }
        if let Ok(remainder) = tag("+", source) {
            Ok((remainder, Operation::Add))
        } else if let Ok(remainder) = tag("-", source) {
            Ok((remainder, Operation::Sub))
        } else if let Ok(remainder) = tag("*", source) {
            Ok((remainder, Operation::Mul))
        } else if let Ok(remainder) = tag("/", source) {
            Ok((remainder, Operation::Div))
        } else {
            Err(String::from_str("Expected operator"))
        }
    }
}

/// A one-character tag matches exactly when that character heads the source.
proof fn lemma_symbol_tags(s: Seq<char>)
    ensures
        "+"@.len() == 1 && ("+"@.is_prefix_of(s) <==> s.len() > 0 && s[0] == '+'),
        "-"@.len() == 1 && ("-"@.is_prefix_of(s) <==> s.len() > 0 && s[0] == '-'),
        "*"@.len() == 1 && ("*"@.is_prefix_of(s) <==> s.len() > 0 && s[0] == '*'),
        "/"@.len() == 1 && ("/"@.is_prefix_of(s) <==> s.len() > 0 && s[0] == '/'),
{
    reveal_strlit("+");
    reveal_strlit("-");
    reveal_strlit("*");
    reveal_strlit("/");
    if s.len() > 0 {
        assert(s.subrange(0, 1)[0] == s[0]);
        assert("+"@[0] == '+');
        assert("-"@[0] == '-');
        assert("*"@[0] == '*');
        assert("/"@[0] == '/');
        assert(s[0] == '+' ==> "+"@ =~= s.subrange(0, 1));
        assert(s[0] == '-' ==> "-"@ =~= s.subrange(0, 1));
        assert(s[0] == '*' ==> "*"@ =~= s.subrange(0, 1));
        assert(s[0] == '/' ==> "/"@ =~= s.subrange(0, 1));
    }
}

/// A literal, or one operation between two literals.
#[derive(Clone, Copy, Debug, PartialEq, Eq, Structural)]
pub enum Expression {
    Number(Number),
    /// `operand` stands left of the symbol and `operator` right of it.
    BinaryOperation { operand: Number, operator: Number, operation: Operation },
}

impl Expression {
    /// The grammar of the binary form: a number, an operation and a number,
    /// with any number of spaces around the operation.
    pub open spec fn parse_binary_operation(s: Seq<char>) -> Result<
        (Seq<char>, Expression),
        Seq<char>,
    > {
        match Number::parse(s) {
            Err(message) => Err(message),
            Ok((after_operand, operand)) => match Operation::parse(skip_spaces(after_operand)) {
                Err(message) => Err(message),
                Ok((after_operation, operation)) => match Number::parse(
                    skip_spaces(after_operation),
                ) {
                    Err(message) => Err(message),
                    Ok((remainder, operator)) => Ok(
                        (remainder, Expression::BinaryOperation { operand, operator, operation }),
                    ),
                },
            },
        }
    }

    /// The grammar of the literal form: a number.
    pub open spec fn parse_number(s: Seq<char>) -> Result<(Seq<char>, Expression), Seq<char>> {
        match Number::parse(s) {
            Err(message) => Err(message),
            Ok((remainder, number)) => Ok((remainder, Expression::Number(number))),
        }
    }

    /// The grammar of an expression: the binary form where the source can be
    /// read as one, else the literal form. Only the literal form's error is
    /// ever reported.
    pub open spec fn parse(s: Seq<char>) -> Result<(Seq<char>, Expression), Seq<char>> {
        match Self::parse_binary_operation(s) {
            Ok(found) => Ok(found),
            Err(_) => Self::parse_number(s),
        }
    }

    /// What the expression evaluates to: the literal itself, or the result
    /// of the operation in 32-bit two's complement arithmetic. Division by
    /// zero is an error.
    pub open spec fn value(self) -> Result<Value, Seq<char>> {
        match self {
            Expression::Number(number) => Ok(Value::Number(number.0)),
            Expression::BinaryOperation { operand, operator, operation } => {
                if operation == Operation::Div && operator.0 == 0 {
                    Err(division_by_zero())
                } else {
                    Ok(Value::Number(wrap(operation.apply(operand.0 as int, operator.0 as int)) as i32))
                }
            },
        }
    }

    pub fn new<'a>(source: &'a str) -> (r: Result<(&'a str, Self), String>)
        ensures
            parsed(r) == Self::parse(source@),
    {
        match Self::new_binary_operation(source) {
            Ok(found) => Ok(found),
            Err(_) => Self::new_number(source),
        }
    }

    fn new_binary_operation<'a>(source: &'a str) -> (r: Result<(&'a str, Self), String>)
        ensures
            parsed(r) == Self::parse_binary_operation(source@),
    {
        let (source, operand) = Number::new(source)?;
        let (source, _) = extract_whitespace(source);
        let (source, operation) = Operation::new(source)?;
        let (source, _) = extract_whitespace(source);
        let (source, operator) = Number::new(source)?;
        Ok((source, Expression::BinaryOperation { operand, operator, operation }))
    }

    fn new_number<'a>(source: &'a str) -> (r: Result<(&'a str, Self), String>)
        ensures
            parsed(r) == Self::parse_number(source@),
    {
        match Number::new(source) {
            Ok((remainder, number)) => Ok((remainder, Expression::Number(number))),
            Err(message) => Err(message),
        }
    }

    pub fn evaluate(&self) -> (r: Result<Value, String>)
        ensures
            match r {
                Ok(value) => self.value() == Ok::<Value, Seq<char>>(value),
                Err(message) => self.value() == Err::<Value, Seq<char>>(message@),
            },
    {
        match self {
            Expression::Number(Number(n)) => Ok(Value::Number(*n)),
            Expression::BinaryOperation { operand, operator, operation } => {
                let a: i32 = operand.0;
                let b: i32 = operator.0;
                let result: i32 = match operation {
                    Operation::Add => a.wrapping_add(b),
                    Operation::Sub => a.wrapping_sub(b),
                    Operation::Mul => a.wrapping_mul(b),
                    Operation::Div => {
                        if b == 0 {
                            return Err(String::from_str("Division by zero"));
                        }
                        match a.checked_div(b) {
                            Some(q) => q,
                            None => i32::MIN,
                        }
                    },
                };
                Ok(Value::Number(result))
            },
        }
    }
}

} // verus!
