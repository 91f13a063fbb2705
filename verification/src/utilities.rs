//! Lexical scanners: each consumes a prefix of the source and hands back the
//! remainder together with what it consumed.

use vstd::prelude::*;
use vstd::std_specs::iter::IteratorSpec;

verus! {

broadcast use vstd::string::group_string_axioms;

/// The character classes the scanners know.
#[derive(Clone, Copy, Debug, PartialEq, Eq)]
pub enum CharClass {
    /// `0` to `9`.
    Digit,
    /// The space character only.
    Space,
    /// ASCII letters and digits.
    Alphanumeric,
}

pub open spec fn is_digit(c: char) -> bool {
    '0' <= c && c <= '9'
}

pub open spec fn is_alphabetic(c: char) -> bool {
    ('a' <= c && c <= 'z') || ('A' <= c && c <= 'Z')
}

pub open spec fn is_operator(c: char) -> bool {
    c == '+' || c == '-' || c == '*' || c == '/'
}

impl CharClass {
    /// Whether `c` belongs to the class.
    pub open spec fn admits(self, c: char) -> bool {
        match self {
            CharClass::Digit => is_digit(c),
            CharClass::Space => c == ' ',
            CharClass::Alphanumeric => is_digit(c) || is_alphabetic(c),
        }
    }

    pub fn accepts(&self, c: char) -> (accepted: bool)
        ensures
            accepted == self.admits(c),
    {
        match self {
            CharClass::Digit => '0' <= c && c <= '9',
            CharClass::Space => c == ' ',
            CharClass::Alphanumeric => ('0' <= c && c <= '9') || ('a' <= c && c <= 'z') || ('A'
                <= c && c <= 'Z'),
        }
    }
}

/// `n` is where the longest prefix of `s` made of `class` characters ends.
pub open spec fn is_run(s: Seq<char>, class: CharClass, n: int) -> bool {
    &&& 0 <= n <= s.len()
    &&& forall|i: int| 0 <= i < n ==> class.admits(#[trigger] s[i])
    &&& n < s.len() ==> !class.admits(s[n])
}

/// Length of the longest prefix of `s` made of `class` characters.
pub open spec fn run_len(s: Seq<char>, class: CharClass) -> nat
    decreases s.len(),
{
    if s.len() > 0 && class.admits(s[0]) {
        1 + run_len(s.skip(1), class)
    } else {
        0
    }
}

/// `run_len` is a run, and the only one.
pub proof fn lemma_run_len(s: Seq<char>, class: CharClass)
    ensures
        is_run(s, class, run_len(s, class) as int),
        forall|n: int| is_run(s, class, n) ==> n == run_len(s, class),
    decreases s.len(),
{
    if s.len() > 0 && class.admits(s[0]) {
        let t = s.skip(1);
        lemma_run_len(t, class);
        let m = run_len(t, class) as int;
        assert forall|i: int| 0 <= i < m + 1 implies class.admits(#[trigger] s[i]) by {
            if i > 0 {
                assert(s[i] == t[i - 1]);
            }
        }
        if m + 1 < s.len() {
            assert(s[m + 1] == t[m]);
        }
        assert forall|n: int| is_run(s, class, n) implies n == m + 1 by {
            assert(n > 0);
            assert forall|i: int| 0 <= i < n - 1 implies class.admits(#[trigger] t[i]) by {
                assert(t[i] == s[i + 1]);
            }
            if n - 1 < t.len() {
                assert(t[n - 1] == s[n]);
            }
            assert(is_run(t, class, n - 1));
        }
    } else {
        assert forall|n: int| is_run(s, class, n) implies n == 0 by {
            if n > 0 {
                assert(class.admits(s[0]));
            }
        }
    }
}

/// Splits `source` after its longest prefix of `class` characters.
pub fn take_while<'a>(class: CharClass, source: &'a str) -> (split: (&'a str, &'a str))
    ensures
        split.1@ == source@.take(run_len(source@, class) as int),
        split.0@ == source@.skip(run_len(source@, class) as int),
{
    let len: usize = source.unicode_len();
    let mut chars = source.chars();
    let mut end: usize = 0;
    loop
        invariant_except_break
            chars.remaining() == source@.skip(end as int),
        invariant
            end <= len,
            len == source@.len(),
            forall|i: int| 0 <= i < end ==> class.admits(#[trigger] source@[i]),
        ensures
            forall|i: int| 0 <= i < end ==> class.admits(#[trigger] source@[i]),
            end < len ==> !class.admits(source@[end as int]),
        decreases len - end,
    {
        match chars.next() {
            Some(c) => {
                assert(c == source@[end as int]);
                if !class.accepts(c) {
                    break ;
                }
                assert(source@.skip(end as int).drop_first() =~= source@.skip(end + 1));
                end += 1;
            },
            None => {
                break ;
            },
        }
    }
    proof {
        lemma_run_len(source@, class);
        assert(is_run(source@, class, end as int));
    }
    let extracted = source.substring_char(0, end);
    let remainder = source.substring_char(end, len);
    (remainder, extracted)
}

/// What `take_only` reports for `source`: the split, or `message` where no
/// character of the class stands at the head.
pub open spec fn only(class: CharClass, s: Seq<char>, message: Seq<char>) -> Result<
    (Seq<char>, Seq<char>),
    Seq<char>,
> {
    let n = run_len(s, class) as int;
    if n == 0 {
        Err(message)
    } else {
        Ok((s.skip(n), s.take(n)))
    }
}

/// The model of a scanner's result: views in place of slices and strings.
pub open spec fn scanned(r: Result<(&str, &str), String>) -> Result<
    (Seq<char>, Seq<char>),
    Seq<char>,
> {
    match r {
        Ok((remainder, extracted)) => Ok((remainder@, extracted@)),
        Err(message) => Err(message@),
    }
}

/// As `take_while`, but an empty match is an error, reported as
/// `error_message`.
pub fn take_only<'a>(class: CharClass, source: &'a str, error_message: String) -> (r: Result<
    (&'a str, &'a str),
    String,
>)
    ensures
        scanned(r) == only(class, source@, error_message@),
{
    let (remainder, extracted) = take_while(class, source);
    proof {
        lemma_run_len(source@, class);
    }
    if extracted.unicode_len() == 0 {
        Err(error_message)
    } else {
        Ok((remainder, extracted))
    }
}

pub open spec fn expected_digits() -> Seq<char> {
    "Expected digits"@
}

pub open spec fn expected_whitespace() -> Seq<char> {
    "Expected whitespace"@
}

pub open spec fn expected_identifier() -> Seq<char> {
    "Expected identifier"@
}

/// The message for a missing keyword or symbol.
pub open spec fn expected(keyword: Seq<char>) -> Seq<char> {
    "Expected "@ + keyword
}

/// The leading digits of `source`; an error where it starts with none.
pub fn extract_digits<'a>(source: &'a str) -> (r: Result<(&'a str, &'a str), String>)
    ensures
        scanned(r) == only(CharClass::Digit, source@, expected_digits()),
{
    take_only(CharClass::Digit, source, String::from_str("Expected digits"))
}

/// The leading spaces of `source`, which may be none.
pub fn extract_whitespace<'a>(source: &'a str) -> (split: (&'a str, &'a str))
    ensures
        split.1@ == source@.take(run_len(source@, CharClass::Space) as int),
        split.0@ == source@.skip(run_len(source@, CharClass::Space) as int),
{
    take_while(CharClass::Space, source)
}

/// The leading spaces of `source`; an error where it starts with none.
pub fn require_whitespace<'a>(source: &'a str) -> (r: Result<(&'a str, &'a str), String>)
    ensures
        scanned(r) == only(CharClass::Space, source@, expected_whitespace()),
{
    take_only(CharClass::Space, source, String::from_str("Expected whitespace"))
}

/// What `extract_identitifier` reports: a letter, then the longest run of
/// letters and digits.
pub open spec fn identifier(s: Seq<char>) -> Result<(Seq<char>, Seq<char>), Seq<char>> {
    if s.len() > 0 && is_alphabetic(s[0]) {
        let n = run_len(s, CharClass::Alphanumeric) as int;
        Ok((s.skip(n), s.take(n)))
    } else {
        Err(expected_identifier())
    }
}

/// An identifier at the head of `source`. Nothing is consumed where the first
/// character is not a letter.
pub fn extract_identitifier<'a>(source: &'a str) -> (r: Result<(&'a str, &'a str), String>)
    ensures
        scanned(r) == identifier(source@),
{
    if source.unicode_len() > 0 && is_letter(source.get_char(0)) {
        Ok(take_while(CharClass::Alphanumeric, source))
    } else {
        Err(String::from_str("Expected identifier"))
    }
}

fn is_letter(c: char) -> (b: bool)
    ensures
        b == is_alphabetic(c),
{
    ('a' <= c && c <= 'z') || ('A' <= c && c <= 'Z')
}

/// What `extract_operation` requires of its input: an operator symbol at the
/// head.
pub open spec fn starts_with_operator(s: Seq<char>) -> bool {
    s.len() > 0 && is_operator(s[0])
}

/// Splits the operator symbol off the head of `source`.
pub fn extract_operation<'a>(source: &'a str) -> (split: (&'a str, &'a str))
    requires
        starts_with_operator(source@),
    ensures
        split.1@ == source@.take(1),
        split.0@ == source@.skip(1),
{
    let len: usize = source.unicode_len();
    (source.substring_char(1, len), source.substring_char(0, 1))
}

/// What `tag` reports: the source without the keyword, or the message that
/// names the keyword.
pub open spec fn tagged(keyword: Seq<char>, s: Seq<char>) -> Result<Seq<char>, Seq<char>> {
    if keyword.is_prefix_of(s) {
        Ok(s.skip(keyword.len() as int))
    } else {
        Err(expected(keyword))
    }
}

/// Strips the literal `keyword` from the head of `source`.
pub fn tag<'a, 'b>(keyword: &'a str, source: &'b str) -> (r: Result<&'b str, String>)
    ensures
        match r {
            Ok(remainder) => tagged(keyword@, source@) == Ok::<Seq<char>, Seq<char>>(remainder@),
            Err(message) => tagged(keyword@, source@) == Err::<Seq<char>, Seq<char>>(message@),
        },
{
    let keyword_len: usize = keyword.unicode_len();
    let len: usize = source.unicode_len();
    let mut keyword_chars = keyword.chars();
    let mut chars = source.chars();
    let mut matched: bool = keyword_len <= len;
    let mut i: usize = 0;
    while matched && i < keyword_len
        invariant
            keyword_len == keyword@.len(),
            len == source@.len(),
            matched ==> i <= keyword_len <= len,
            matched ==> keyword_chars.remaining() == keyword@.skip(i as int),
            matched ==> chars.remaining() == source@.skip(i as int),
            matched ==> forall|j: int| 0 <= j < i ==> keyword@[j] == source@[j],
            !matched ==> !keyword@.is_prefix_of(source@),
        decreases
                keyword_len - i + if matched {
                    1int
                } else {
                    0int
                },
    {
        let expected_char = keyword_chars.next();
        let found_char = chars.next();
        assert(expected_char == Some(keyword@[i as int]));
        assert(found_char == Some(source@[i as int]));
        if expected_char != found_char {
            matched = false;
            proof {
                if keyword@.is_prefix_of(source@) {
                    let head = source@.subrange(0, keyword@.len() as int);
                    assert(head[i as int] == source@[i as int]);
                }
            }
        } else {
            assert(keyword@.skip(i as int).drop_first() =~= keyword@.skip(i + 1));
            assert(source@.skip(i as int).drop_first() =~= source@.skip(i + 1));
            i += 1;
        }
    }
    if matched {
        proof {
            assert(keyword@ =~= source@.subrange(0, keyword@.len() as int));
        }
        Ok(source.substring_char(keyword_len, len))
    } else {
        Err(String::from_str("Expected ").concat(keyword))
    }
}

} // verus!
