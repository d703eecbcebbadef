//! The grammar of the query language, as functions on character sequences.
//!
//! A query is a run of tokens separated by whitespace. A double quote opens a
//! quoted segment that runs to the next double quote (or to the end of the
//! text); whitespace inside it does not end the token. Quote characters never
//! belong to a value.
//!
//! A token in which a colon or a comparison operator comes before any quote
//! is a field token: the name before it selects an attribute. Every other
//! token is a free-text term.

use crate::query::{Comparator, Field, NumberField, ParseError, Restriction, SetField, TextField};
use vstd::prelude::*;

verus! {

/// The characters that separate tokens.
pub open spec fn is_space(c: char) -> bool {
    c == ' ' || c == '\t' || c == '\n' || c == '\r'
}

/// The quote character.
pub open spec fn is_quote(c: char) -> bool {
    c == '"'
}

/// Length of the token at the start of `s`. `quoted` says whether a quoted
/// segment is open at that point.
pub open spec fn token_len(s: Seq<char>, quoted: bool) -> nat
    decreases s.len(),
{
    if s.len() == 0 {
        0
    } else if !quoted && is_space(s[0]) {
        0
    } else {
        1 + token_len(s.drop_first(), quoted != is_quote(s[0]))
    }
}

/// The text without its quote characters.
pub open spec fn without_quotes(t: Seq<char>) -> Seq<char>
    decreases t.len(),
{
    if t.len() == 0 {
        Seq::empty()
    } else if is_quote(t.last()) {
        without_quotes(t.drop_last())
    } else {
        without_quotes(t.drop_last()).push(t.last())
    }
}

/// A colon or a comparison operator begins at index `k` of `t`.
pub open spec fn operator_starts(t: Seq<char>, k: int) -> bool {
    &&& 0 <= k < t.len()
    &&& (t[k] == ':' || t[k] == '<' || t[k] == '>' || t[k] == '=' || (t[k] == '!' && k + 1
        < t.len() && t[k + 1] == '='))
}

/// The first index at or after `k` that holds a quote or begins an operator;
/// the length of `t` if there is none.
pub open spec fn split_point(t: Seq<char>, k: int) -> int
    decreases t.len() - k,
{
    if k < 0 || k >= t.len() {
        t.len() as int
    } else if is_quote(t[k]) || operator_starts(t, k) {
        k
    } else {
        split_point(t, k + 1)
    }
}

/// The comparison operator that begins at index `k`, with its width in
/// characters. Meant for a `k` at which `<`, `>`, `=` or `!=` begins.
pub open spec fn operator_at(t: Seq<char>, k: int) -> (Comparator, int) {
    let wide = k + 1 < t.len() && t[k + 1] == '=';
    if t[k] == '>' {
        if wide {
            (Comparator::GreaterOrEqual, 2)
        } else {
            (Comparator::Greater, 1)
        }
    } else if t[k] == '<' {
        if wide {
            (Comparator::LessOrEqual, 2)
        } else {
            (Comparator::Less, 1)
        }
    } else if t[k] == '=' {
        (Comparator::Equal, 1)
    } else {
        (Comparator::NotEqual, 2)
    }
}

/// What a field name selects, if the language knows it.
pub open spec fn field_named(name: Seq<char>) -> Option<Field> {
    if name == "cost"@ {
        Some(Field::Number(NumberField::Cost))
    } else if name == "health"@ {
        Some(Field::Number(NumberField::Health))
    } else if name == "defense"@ {
        Some(Field::Number(NumberField::Defense))
    } else if name == "power"@ {
        Some(Field::Number(NumberField::Power))
    } else if name == "name"@ {
        Some(Field::Text(TextField::Name))
    } else if name == "type"@ {
        Some(Field::Text(TextField::Type))
    } else if name == "description"@ {
        Some(Field::Text(TextField::Description))
    } else if name == "kins"@ {
        Some(Field::Tags(SetField::Kins))
    } else if name == "abilities"@ {
        Some(Field::Tags(SetField::Abilities))
    } else if name == "functions"@ {
        Some(Field::Tags(SetField::Functions))
    } else if name == "other"@ {
        Some(Field::Tags(SetField::Other))
    } else if name == "artists"@ {
        Some(Field::Tags(SetField::Artists))
    } else if name == "keyword"@ {
        Some(Field::Keyword)
    } else {
        None
    }
}

/// A decimal digit.
pub open spec fn is_digit(c: char) -> bool {
    '0' <= c <= '9'
}

/// The number a run of decimal digits denotes.
pub open spec fn digits_value(s: Seq<char>) -> nat
    decreases s.len(),
{
    if s.len() == 0 {
        0
    } else {
        (digits_value(s.drop_last()) * 10 + (s.last() as int - '0' as int)) as nat
    }
}

/// Every character of `s` is a decimal digit.
pub open spec fn all_digits(s: Seq<char>) -> bool {
    forall|i: int| 0 <= i < s.len() ==> is_digit(#[trigger] s[i])
}

/// The non-negative integer that `s` spells: one or more decimal digits whose
/// value fits the machine word.
pub open spec fn number_spelled(s: Seq<char>) -> Option<usize> {
    if s.len() > 0 && all_digits(s) && digits_value(s) <= usize::MAX {
        Some(digits_value(s) as usize)
    } else {
        None
    }
}

/// The restriction of a token `name<op>value`. A numeric field compares with
/// the number that the value spells; a text field tests containment of the
/// value whatever the operator; no other name is known in this position.
pub open spec fn operator_restriction(name: Seq<char>, op: Comparator, value: Seq<char>) -> Result<
    Restriction,
    ParseError,
> {
    match field_named(name) {
        Some(Field::Number(f)) => match number_spelled(value) {
            Some(n) => Ok(Restriction::Comparison(f, op, n)),
            None => Err(ParseError::InvalidNumber),
        },
        Some(Field::Text(f)) => Ok(Restriction::Contains(f, value)),
        _ => Err(ParseError::UnknownField),
    }
}

/// The restriction of a token `name:value`. On a numeric field the colon
/// reads as equality.
pub open spec fn colon_restriction(name: Seq<char>, value: Seq<char>) -> Result<
    Restriction,
    ParseError,
> {
    match field_named(name) {
        Some(Field::Number(f)) => match number_spelled(value) {
            Some(n) => Ok(Restriction::Comparison(f, Comparator::Equal, n)),
            None => Err(ParseError::InvalidNumber),
        },
        Some(Field::Text(f)) => Ok(Restriction::Contains(f, value)),
        Some(Field::Tags(f)) => Ok(Restriction::SetContains(f, value)),
        Some(Field::Keyword) => Ok(Restriction::KeywordNameContains(value)),
        None => Err(ParseError::UnknownField),
    }
}

/// The restriction that one token stands for.
pub open spec fn classify(t: Seq<char>) -> Result<Restriction, ParseError> {
    let k = split_point(t, 0);
    if k >= t.len() || is_quote(t[k]) {
        Ok(Restriction::Fuzzy(without_quotes(t)))
    } else if t[k] == ':' {
        colon_restriction(t.take(k), without_quotes(t.skip(k + 1)))
    } else {
        let (op, width) = operator_at(t, k);
        operator_restriction(t.take(k), op, without_quotes(t.skip(k + width)))
    }
}

/// A token never runs past the end of the text.
pub proof fn lemma_token_len_bound(s: Seq<char>, quoted: bool)
    ensures
        token_len(s, quoted) <= s.len(),
    decreases s.len(),
{
    if s.len() > 0 && !(!quoted && is_space(s[0])) {
        lemma_token_len_bound(s.drop_first(), quoted != is_quote(s[0]));
    }
}

/// The restriction list that a query text stands for, or the error of its
/// first offending token.
pub open spec fn parse_spec(s: Seq<char>) -> Result<Seq<Restriction>, ParseError>
    decreases s.len(),
{
    if s.len() == 0 {
        Ok(Seq::empty())
    } else if is_space(s[0]) {
        parse_spec(s.drop_first())
    } else {
        let n = token_len(s, false);
        proof {
            lemma_token_len_bound(s, false);
        }
        match classify(s.take(n as int)) {
            Err(e) => Err(e),
            Ok(r) => match parse_spec(s.skip(n as int)) {
                Err(e) => Err(e),
                Ok(rest) => Ok(seq![r] + rest),
            },
        }
    }
}

} // verus!
