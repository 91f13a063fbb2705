//! What holds of parsing and evaluation together.

use crate::binding_definition::BindingDefinition;
use crate::expression::{
    decimal_value, digit_value, division_by_zero, skip_spaces, wrap, Expression, Number,
    Operation,
};
use crate::utilities::{is_digit, is_run, lemma_run_len, run_len, tagged, CharClass};
use crate::value::Value;
use vstd::prelude::*;

verus! {

/// A string of `n` spaces.
pub open spec fn spaces(n: nat) -> Seq<char> {
    Seq::new(n, |i: int| ' ')
}

/// A non-empty string of decimal digits.
pub open spec fn is_digit_string(s: Seq<char>) -> bool {
    s.len() > 0 && forall|i: int| 0 <= i < s.len() ==> is_digit(#[trigger] s[i])
}

/// The character that writes the digit `d`.
pub open spec fn digit_char(d: nat) -> char
    recommends
        d < 10,
{
    ('0' as int + d) as char
}

/// The usual way to write `n` in base ten, without leading zeros.
pub open spec fn decimal_digits(n: nat) -> Seq<char>
    decreases n,
{
    if n < 10 {
        seq![digit_char(n)]
    } else {
        decimal_digits(n / 10).push(digit_char(n % 10))
    }
}

/// The text of a binary operation: the first literal, `left` spaces, the
/// symbol, `right` spaces, the second literal, and then `tail`.
pub open spec fn binary_source(
    first: Seq<char>,
    left: nat,
    operation: Operation,
    right: nat,
    second: Seq<char>,
    tail: Seq<char>,
) -> Seq<char> {
    first + (spaces(left) + (seq![operation.symbol()] + (spaces(right) + (second + tail))))
}

/// Reading what `decimal_digits` wrote gives the number back.
pub proof fn lemma_decimal_digits(n: nat)
    ensures
        is_digit_string(decimal_digits(n)),
        decimal_value(decimal_digits(n)) == n,
    decreases n,
{
    let s = decimal_digits(n);
    if n < 10 {
        assert(s.drop_last() =~= Seq::<char>::empty());
        assert(decimal_value(s.drop_last()) == 0);
        assert(s.last() == digit_char(n));
        assert(digit_value(digit_char(n)) == n);
    } else {
        lemma_decimal_digits(n / 10);
        assert(s.drop_last() =~= decimal_digits(n / 10));
        assert(s.last() == digit_char(n % 10));
        assert(digit_value(digit_char(n % 10)) == n % 10);
        assert forall|i: int| 0 <= i < s.len() implies is_digit(#[trigger] s[i]) by {
            if i < s.len() - 1 {
                assert(s[i] == decimal_digits(n / 10)[i]);
            }
        }
    }
}

/// A digit string followed by something that is no digit is read whole.
pub proof fn lemma_number_then(digits: Seq<char>, tail: Seq<char>)
    requires
        is_digit_string(digits),
        tail.len() == 0 || !is_digit(tail[0]),
    ensures
        Number::parse(digits + tail) == if decimal_value(digits) > i32::MAX {
            Err::<(Seq<char>, Number), Seq<char>>(crate::expression::number_out_of_range())
        } else {
            Ok((tail, Number(decimal_value(digits) as i32)))
        },
{
    let s = digits + tail;
    lemma_run_len(s, CharClass::Digit);
    assert(is_run(s, CharClass::Digit, digits.len() as int)) by {
        assert forall|i: int| 0 <= i < digits.len() implies CharClass::Digit.admits(
            #[trigger] s[i],
        ) by {
            assert(s[i] == digits[i]);
        }
        if digits.len() < s.len() {
            assert(s[digits.len() as int] == tail[0]);
        }
    }
    assert(run_len(s, CharClass::Digit) == digits.len());
    assert(s.take(digits.len() as int) =~= digits);
    assert(s.skip(digits.len() as int) =~= tail);
}

/// Spaces in front of something that is no space are skipped, and no more.
pub proof fn lemma_spaces_then(n: nat, tail: Seq<char>)
    requires
        tail.len() == 0 || tail[0] != ' ',
    ensures
        skip_spaces(spaces(n) + tail) == tail,
{
    let s = spaces(n) + tail;
    lemma_run_len(s, CharClass::Space);
    assert(is_run(s, CharClass::Space, n as int)) by {
        assert forall|i: int| 0 <= i < n implies CharClass::Space.admits(#[trigger] s[i]) by {
            assert(s[i] == spaces(n)[i]);
        }
        if n < s.len() {
            assert(s[n as int] == tail[0]);
        }
    }
    assert(run_len(s, CharClass::Space) == n);
    assert(s.skip(n as int) =~= tail);
}

/// Two literals that fit, with an operator symbol between them and any
/// number of spaces around it, are read as that binary operation, up to the
/// first character after the second literal that is no digit.
pub proof fn lemma_binary_source(
    first: Seq<char>,
    left: nat,
    operation: Operation,
    right: nat,
    second: Seq<char>,
    tail: Seq<char>,
)
    requires
        is_digit_string(first),
        is_digit_string(second),
        decimal_value(first) <= i32::MAX,
        decimal_value(second) <= i32::MAX,
        tail.len() == 0 || !is_digit(tail[0]),
    ensures
        Expression::parse(binary_source(first, left, operation, right, second, tail)) == Ok::<
            (Seq<char>, Expression),
            Seq<char>,
        >(
            (
                tail,
                Expression::BinaryOperation {
                    operand: Number(decimal_value(first) as i32),
                    operator: Number(decimal_value(second) as i32),
                    operation,
                },
            ),
        ),
{
    let at_second = second + tail;
    let after_operation = spaces(right) + at_second;
    let at_operation = seq![operation.symbol()] + after_operation;
    let after_operand = spaces(left) + at_operation;
    assert(at_second[0] == second[0]);
    assert(is_digit(second[0]));
    assert(at_operation[0] == operation.symbol());
    assert(after_operand[0] == if left > 0 {
        ' '
    } else {
        operation.symbol()
    }) by {
        if left > 0 {
            assert(after_operand[0] == spaces(left)[0]);
        } else {
            assert(after_operand[0] == at_operation[0]);
        }
    }
    lemma_number_then(first, after_operand);
    lemma_spaces_then(left, at_operation);
    assert(at_operation.skip(1) =~= after_operation);
    assert(Operation::parse(at_operation) == Ok::<(Seq<char>, Operation), Seq<char>>(
        (after_operation, operation),
    ));
    lemma_spaces_then(right, at_second);
    lemma_number_then(second, tail);
}

/// A binary operation of two non-negative integers, written in base ten
/// with any number of spaces around the symbol, is read whole, and evaluates
/// to what the operation gives on the two integers in 32-bit two's
/// complement arithmetic: the exact result wherever that fits. Division
/// rounds towards zero, and by zero it is the division error.
pub proof fn law_binary_operation_round_trip(
    a: nat,
    b: nat,
    operation: Operation,
    left: nat,
    right: nat,
)
    requires
        a <= i32::MAX,
        b <= i32::MAX,
    ensures
        ({
            let source = binary_source(
                decimal_digits(a),
                left,
                operation,
                right,
                decimal_digits(b),
                Seq::<char>::empty(),
            );
            let expression = Expression::BinaryOperation {
                operand: Number(a as i32),
                operator: Number(b as i32),
                operation,
            };
            let exact = operation.apply(a as int, b as int);
            &&& Expression::parse(source) == Ok::<(Seq<char>, Expression), Seq<char>>(
                (Seq::<char>::empty(), expression),
            )
            &&& operation == Operation::Div && b == 0 ==> expression.value() == Err::<
                Value,
                Seq<char>,
            >(division_by_zero())
            &&& !(operation == Operation::Div && b == 0) ==> expression.value() == Ok::<
                Value,
                Seq<char>,
            >(Value::Number(wrap(exact) as i32))
            &&& i32::MIN <= exact <= i32::MAX ==> wrap(exact) == exact
        }),
{
    lemma_decimal_digits(a);
    lemma_decimal_digits(b);
    lemma_binary_source(
        decimal_digits(a),
        left,
        operation,
        right,
        decimal_digits(b),
        Seq::<char>::empty(),
    );
}

/// A digit string that fits, alone, is read as a literal of that value, and
/// evaluates to it.
pub proof fn law_literal(digits: Seq<char>)
    requires
        is_digit_string(digits),
        decimal_value(digits) <= i32::MAX,
    ensures
        ({
            let literal = Expression::Number(Number(decimal_value(digits) as i32));
            &&& Expression::parse(digits) == Ok::<(Seq<char>, Expression), Seq<char>>(
                (Seq::<char>::empty(), literal),
            )
            &&& literal.value() == Ok::<Value, Seq<char>>(
                Value::Number(decimal_value(digits) as i32),
            )
        }),
{
    let none = Seq::<char>::empty();
    lemma_number_then(digits, none);
    assert(digits + none =~= digits);
    lemma_run_len(none, CharClass::Space);
    assert(skip_spaces(none) =~= none);
}

/// The number of spaces around the symbol does not change what a binary
/// operation is read as, and so not what it evaluates to.
pub proof fn law_whitespace_insensitive(
    first: Seq<char>,
    operation: Operation,
    second: Seq<char>,
    tail: Seq<char>,
    left: nat,
    right: nat,
    other_left: nat,
    other_right: nat,
)
    requires
        is_digit_string(first),
        is_digit_string(second),
        decimal_value(first) <= i32::MAX,
        decimal_value(second) <= i32::MAX,
        tail.len() == 0 || !is_digit(tail[0]),
    ensures
        Expression::parse(binary_source(first, left, operation, right, second, tail))
            == Expression::parse(
            binary_source(first, other_left, operation, other_right, second, tail),
        ),
{
    lemma_binary_source(first, left, operation, right, second, tail);
    lemma_binary_source(first, other_left, operation, other_right, second, tail);
}

/// Of two values stored under one name the later is the one that is found,
/// and every other name keeps what it was bound to.
pub proof fn law_last_binding_wins(
    bindings: Map<Seq<char>, Value>,
    name: Seq<char>,
    earlier: Value,
    later: Value,
)
    ensures
        bindings.insert(name, earlier).insert(name, later)[name] == later,
        bindings.insert(name, earlier).insert(name, later) == bindings.insert(name, later),
{
    assert(bindings.insert(name, earlier).insert(name, later) =~= bindings.insert(name, later));
}

/// `remainder` is what is left of `s` once a non-empty prefix is taken off.
pub open spec fn is_remainder_of(remainder: Seq<char>, s: Seq<char>) -> bool {
    remainder.len() < s.len() && remainder == s.skip(s.len() - remainder.len())
}

/// Skipping spaces leaves the end of the source.
proof fn lemma_skip_spaces_remainder(s: Seq<char>)
    ensures
        skip_spaces(s).len() <= s.len(),
        skip_spaces(s) == s.skip(s.len() - skip_spaces(s).len()),
{
    lemma_run_len(s, CharClass::Space);
}

/// A number is read off the front of the source.
proof fn lemma_number_remainder(s: Seq<char>)
    ensures
        Number::parse(s) matches Ok((remainder, _)) ==> is_remainder_of(remainder, s),
{
    lemma_run_len(s, CharClass::Digit);
}

/// Dropping from the front twice is dropping once.
proof fn lemma_skip_twice(s: Seq<char>, a: int, b: int)
    requires
        0 <= a <= s.len(),
        0 <= b <= s.len() - a,
    ensures
        s.skip(a).skip(b) == s.skip(a + b),
{
    assert(s.skip(a).skip(b) =~= s.skip(a + b));
}

/// A tag is read off the front of the source.
proof fn lemma_tagged_remainder(keyword: Seq<char>, s: Seq<char>)
    ensures
        tagged(keyword, s) matches Ok(remainder) ==> remainder.len() <= s.len() && remainder
            == s.skip(s.len() - remainder.len()),
{
}

/// A successful parse of an expression consumes a non-empty prefix of the
/// source and hands back the rest of it, untouched.
pub proof fn law_expression_remainder(s: Seq<char>)
    ensures
        Expression::parse(s) matches Ok((remainder, _)) ==> is_remainder_of(remainder, s),
{
    lemma_number_remainder(s);
    if let Ok((after_operand, _)) = Number::parse(s) {
        let at_operation = skip_spaces(after_operand);
        lemma_skip_spaces_remainder(after_operand);
        lemma_skip_twice(
            s,
            s.len() - after_operand.len(),
            after_operand.len() - at_operation.len(),
        );
        if let Ok((after_operation, _)) = Operation::parse(at_operation) {
            assert(after_operation == at_operation.skip(1));
            lemma_skip_twice(s, s.len() - at_operation.len(), 1);
            let at_operator = skip_spaces(after_operation);
            lemma_skip_spaces_remainder(after_operation);
            lemma_skip_twice(
                s,
                s.len() - after_operation.len(),
                after_operation.len() - at_operator.len(),
            );
            lemma_number_remainder(at_operator);
            if let Ok((remainder, _)) = Number::parse(at_operator) {
                lemma_skip_twice(
                    s,
                    s.len() - at_operator.len(),
                    at_operator.len() - remainder.len(),
                );
            }
        }
    }
}

/// A successful parse of a definition consumes a non-empty prefix of the
/// source and hands back the rest of it, untouched.
pub proof fn law_definition_remainder(s: Seq<char>)
    ensures
        BindingDefinition::parse(s) matches Ok((remainder, _)) ==> is_remainder_of(remainder, s),
{
    if let Ok((remainder, _)) = BindingDefinition::parse(s) {
        let after_let = tagged("let"@, s)->Ok_0;
        lemma_tagged_remainder("let"@, s);
        lemma_run_len(after_let, CharClass::Space);
        let at_name = after_let.skip(run_len(after_let, CharClass::Space) as int);
        lemma_skip_twice(s, s.len() - after_let.len(), after_let.len() - at_name.len());
        lemma_run_len(at_name, CharClass::Alphanumeric);
        let after_name = at_name.skip(run_len(at_name, CharClass::Alphanumeric) as int);
        lemma_skip_twice(s, s.len() - at_name.len(), at_name.len() - after_name.len());
        let at_equals = skip_spaces(after_name);
        lemma_skip_spaces_remainder(after_name);
        lemma_skip_twice(s, s.len() - after_name.len(), after_name.len() - at_equals.len());
        let after_equals = tagged("="@, at_equals)->Ok_0;
        lemma_tagged_remainder("="@, at_equals);
        lemma_skip_twice(s, s.len() - at_equals.len(), at_equals.len() - after_equals.len());
        let at_value = skip_spaces(after_equals);
        lemma_skip_spaces_remainder(after_equals);
        lemma_skip_twice(s, s.len() - after_equals.len(), after_equals.len() - at_value.len());
        law_expression_remainder(at_value);
        lemma_skip_twice(s, s.len() - at_value.len(), at_value.len() - remainder.len());
    }
}

} // verus!
