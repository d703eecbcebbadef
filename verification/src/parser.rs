//! The query parser: from query text to an ordered restriction list.

use crate::grammar::{
    all_digits, classify, digits_value, field_named, is_digit, is_quote, is_space,
    lemma_token_len_bound, number_spelled, operator_at, operator_starts, parse_spec, split_point,
    token_len, without_quotes,
};
use crate::query::{
    restrictions_view, result_view, Comparator, Field, NumberField, ParseError,
    QueryRestriction, Restriction, SetField, TextField,
};
use crate::text::{chars_of, copy_range, same_chars, string_of};
use vstd::prelude::*;

verus! {

/// Whether a character separates tokens.
pub fn is_space_char(c: char) -> (b: bool)
    ensures
        b == is_space(c),
{
    c == ' ' || c == '\t' || c == '\n' || c == '\r'
}

/// Length of the token that starts at index `start`.
fn token_length(s: &Vec<char>, start: usize) -> (n: usize)
    requires
        start <= s.len(),
    ensures
        n == token_len(s@.skip(start as int), false),
        start + n <= s.len(),
{
    let mut j: usize = start;
    let mut quoted = false;
    while j < s.len() && (quoted || !is_space_char(s[j]))
        invariant
            start <= j <= s.len(),
            token_len(s@.skip(start as int), false) == (j - start) + token_len(
                s@.skip(j as int),
                quoted,
            ),
        decreases s.len() - j,
    {
        assert(s@.skip(j as int).drop_first() =~= s@.skip(j + 1));
        quoted = quoted != (s[j] == '"');
        j += 1;
    }
    j - start
}

/// The characters of `t` from index `from` on, quote characters left out.
fn strip_quotes(t: &Vec<char>, from: usize) -> (out: Vec<char>)
    requires
        from <= t.len(),
    ensures
        out@ == without_quotes(t@.skip(from as int)),
{
    let mut out: Vec<char> = Vec::new();
    let mut i: usize = from;
    while i < t.len()
        invariant
            from <= i <= t.len(),
            out@ == without_quotes(t@.subrange(from as int, i as int)),
        decreases t.len() - i,
    {
        assert(t@.subrange(from as int, i + 1).drop_last() =~= t@.subrange(
            from as int,
            i as int,
        ));
        if t[i] != '"' {
            out.push(t[i]);
        }
        i += 1;
    }
    assert(t@.subrange(from as int, t.len() as int) =~= t@.skip(from as int));
    out
}

/// Whether a colon or a comparison operator begins at index `k`.
fn starts_operator(t: &Vec<char>, k: usize) -> (b: bool)
    ensures
        b == operator_starts(t@, k as int),
{
    if k >= t.len() {
        return false;
    }
    let c = t[k];
    c == ':' || c == '<' || c == '>' || c == '=' || (c == '!' && k < t.len() - 1 && t[k + 1]
        == '=')
}

/// The index at which a token splits into field name and the rest.
fn find_split(t: &Vec<char>) -> (k: usize)
    ensures
        k == split_point(t@, 0),
        k <= t.len(),
        k < t.len() ==> is_quote(t@[k as int]) || operator_starts(t@, k as int),
{
    let mut k: usize = 0;
    while k < t.len() && !(t[k] == '"' || starts_operator(t, k))
        invariant
            k <= t.len(),
            split_point(t@, 0) == split_point(t@, k as int),
        decreases t.len() - k,
    {
        k += 1;
    }
    k
}

/// What a field name selects, if the language knows it.
pub fn field_of(name: &Vec<char>) -> (f: Option<Field>)
    ensures
        f == field_named(name@),
{
    if same_chars(name, &chars_of("cost")) {
        Some(Field::Number(NumberField::Cost))
    } else if same_chars(name, &chars_of("health")) {
        Some(Field::Number(NumberField::Health))
    } else if same_chars(name, &chars_of("defense")) {
        Some(Field::Number(NumberField::Defense))
    } else if same_chars(name, &chars_of("power")) {
        Some(Field::Number(NumberField::Power))
    } else if same_chars(name, &chars_of("name")) {
        Some(Field::Text(TextField::Name))
    } else if same_chars(name, &chars_of("type")) {
        Some(Field::Text(TextField::Type))
    } else if same_chars(name, &chars_of("description")) {
        Some(Field::Text(TextField::Description))
    } else if same_chars(name, &chars_of("kins")) {
        Some(Field::Tags(SetField::Kins))
    } else if same_chars(name, &chars_of("abilities")) {
        Some(Field::Tags(SetField::Abilities))
    } else if same_chars(name, &chars_of("functions")) {
        Some(Field::Tags(SetField::Functions))
    } else if same_chars(name, &chars_of("other")) {
        Some(Field::Tags(SetField::Other))
    } else if same_chars(name, &chars_of("artists")) {
        Some(Field::Tags(SetField::Artists))
    } else if same_chars(name, &chars_of("keyword")) {
        Some(Field::Keyword)
    } else {
        None
    }
}

/// Appending digits never lowers the value that a digit run denotes.
pub proof fn lemma_digits_value_prefix(s: Seq<char>, i: int)
    requires
        all_digits(s),
        0 <= i <= s.len(),
    ensures
        digits_value(s.take(i)) <= digits_value(s),
    decreases s.len() - i,
{
    if i < s.len() {
        lemma_digits_value_prefix(s, i + 1);
        assert(s.take(i + 1).drop_last() =~= s.take(i));
        assert(is_digit(s[i]));
    } else {
        assert(s.take(i) =~= s);
    }
}

/// The non-negative integer that the characters spell, if they spell one.
pub fn parse_number(v: &Vec<char>) -> (n: Option<usize>)
    ensures
        n == number_spelled(v@),
{
    if v.len() == 0 {
        return None;
    }
    let mut acc: usize = 0;
    let mut i: usize = 0;
    while i < v.len()
        invariant
            i <= v.len(),
            acc == digits_value(v@.take(i as int)),
            all_digits(v@.take(i as int)),
        decreases v.len() - i,
    {
        let c = v[i];
        if !('0' <= c && c <= '9') {
            assert(!is_digit(v@[i as int]));
            return None;
        }
        let d: usize = (c as u32 - '0' as u32) as usize;
        assert(v@.take(i + 1).drop_last() =~= v@.take(i as int));
        assert(digits_value(v@.take(i + 1)) == acc * 10 + d);
        if acc > (usize::MAX - d) / 10 {
            proof {
                if all_digits(v@) {
                    lemma_digits_value_prefix(v@, i + 1);
                }
            }
            return None;
        }
        acc = acc * 10 + d;
        i += 1;
    }
    assert(v@.take(v.len() as int) =~= v@);
    Some(acc)
}

/// The comparison operator that begins at index `k`, with its width.
fn read_operator(t: &Vec<char>, k: usize) -> (r: (Comparator, usize))
    requires
        operator_starts(t@, k as int),
        t@[k as int] != ':',
    ensures
        r.0 == operator_at(t@, k as int).0,
        r.1 == operator_at(t@, k as int).1,
        k + r.1 <= t.len(),
{
    let wide = k < t.len() - 1 && t[k + 1] == '=';
    let c = t[k];
    if c == '>' {
        if wide {
            (Comparator::GreaterOrEqual, 2)
        } else {
            (Comparator::Greater, 1)
        }
    } else if c == '<' {
        if wide {
            (Comparator::LessOrEqual, 2)
        } else {
            (Comparator::Less, 1)
        }
    } else if c == '=' {
        (Comparator::Equal, 1)
    } else {
        (Comparator::NotEqual, 2)
    }
}

/// The restriction that one token stands for.
pub fn classify_token(t: &Vec<char>) -> (res: Result<QueryRestriction, ParseError>)
    ensures
        match classify(t@) {
            Ok(r) => res matches Ok(q) && q@ == r,
            Err(e) => res matches Err(x) && x == e,
        },
{
    let k = find_split(t);
    if k >= t.len() || t[k] == '"' {
        let value = strip_quotes(t, 0);
        assert(t@.skip(0) =~= t@);
        return Ok(QueryRestriction::Fuzzy(string_of(&value)));
    }
    let name = copy_range(t, 0, k);
    assert(name@ =~= t@.take(k as int));
    let field = field_of(&name);
    if t[k] == ':' {
        let value = strip_quotes(t, k + 1);
        match field {
            Some(Field::Number(f)) => match parse_number(&value) {
                Some(n) => Ok(QueryRestriction::Comparison(f, Comparator::Equal, n)),
                None => Err(ParseError::InvalidNumber),
            },
            Some(Field::Text(f)) => Ok(QueryRestriction::Contains(f, string_of(&value))),
            Some(Field::Tags(f)) => Ok(QueryRestriction::SetContains(f, string_of(&value))),
            Some(Field::Keyword) => Ok(QueryRestriction::KeywordNameContains(string_of(&value))),
            None => Err(ParseError::UnknownField),
        }
    } else {
        let (op, width) = read_operator(t, k);
        let value = strip_quotes(t, k + width);
        match field {
            Some(Field::Number(f)) => match parse_number(&value) {
                Some(n) => Ok(QueryRestriction::Comparison(f, op, n)),
                None => Err(ParseError::InvalidNumber),
            },
            Some(Field::Text(f)) => Ok(QueryRestriction::Contains(f, string_of(&value))),
            _ => Err(ParseError::UnknownField),
        }
    }
}

/// Parses a query text into its restriction list.
///
/// The text is split into tokens at whitespace outside quotes, and each token
/// becomes one restriction, in order. The empty text, and a text of
/// whitespace only, give the empty list. The first token that names an
/// unknown field or spells an invalid number fails the whole query.
pub fn parse(text: &str) -> (res: Result<Vec<QueryRestriction>, ParseError>)
    ensures
        result_view(res) == parse_spec(text@),
{
    let s = chars_of(text);
    let mut out: Vec<QueryRestriction> = Vec::new();
    let mut i: usize = 0;
    assert(s@.skip(0) =~= s@);
    assert(restrictions_view(out@) =~= Seq::<Restriction>::empty());
    while i < s.len()
        invariant
            i <= s.len(),
            s@ == text@,
            match parse_spec(s@.skip(i as int)) {
                Ok(rest) => parse_spec(s@) == Ok::<Seq<Restriction>, ParseError>(
                    restrictions_view(out@) + rest,
                ),
                Err(e) => parse_spec(s@) == Err::<Seq<Restriction>, ParseError>(e),
            },
        decreases s.len() - i,
    {
        let ghost here = s@.skip(i as int);
        if is_space_char(s[i]) {
            assert(here.drop_first() =~= s@.skip(i + 1));
            i += 1;
        } else {
            let n = token_length(&s, i);
            let token = copy_range(&s, i, i + n);
            proof {
                lemma_token_len_bound(here, false);
                assert(token@ =~= here.take(n as int));
                assert(here.skip(n as int) =~= s@.skip(i + n));
                assert(here.len() > 0 && here[0] == s@[i as int]);
                assert(parse_spec(here) == match classify(token@) {
                    Err(e) => Err::<Seq<Restriction>, ParseError>(e),
                    Ok(r) => match parse_spec(s@.skip(i + n)) {
                        Err(e) => Err(e),
                        Ok(rest) => Ok(seq![r] + rest),
                    },
                });
            }
            match classify_token(&token) {
                Err(e) => {
                    return Err(e);
                },
                Ok(r) => {
                    let ghost before = restrictions_view(out@);
                    out.push(r);
                    proof {
                        assert(restrictions_view(out@) =~= before + seq![r@]);
                        match parse_spec(s@.skip(i + n)) {
                            Ok(rest) => {
                                assert(before + (seq![r@] + rest) =~= restrictions_view(out@)
                                    + rest);
                            },
                            Err(_) => {},
                        }
                    }
                    i = i + n;
                },
            }
        }
    }
    proof {
        assert(restrictions_view(out@) + Seq::<Restriction>::empty() =~= restrictions_view(
            out@,
        ));
    }
    Ok(out)
}

} // verus!
