//! The round trip between parser and renderer: a rendered restriction list
//! parses back to itself.
//!
//! A value cannot hold a quote character, because the grammar has no way to
//! write one. The parser never produces such a value, and the law is stated
//! for lists without them.

use crate::grammar::{
    all_digits, classify, colon_restriction, digits_value, field_named, is_digit, is_quote,
    is_space, lemma_token_len_bound, number_spelled, operator_at, operator_starts, parse_spec,
    split_point, token_len, without_quotes,
};
use crate::query::{Comparator, Field, NumberField, ParseError, Restriction, SetField, TextField};
use crate::render::{
    digit_char, digits_of, number_field_name, operator_text, quoted, render_one, render_spec,
    set_field_name, text_field_name,
};
use vstd::prelude::*;

verus! {

/// The text holds no quote character.
pub open spec fn quote_free(t: Seq<char>) -> bool {
    forall|i: int| 0 <= i < t.len() ==> !is_quote(#[trigger] t[i])
}

/// No text value of the list holds a quote character.
pub open spec fn writable(rs: Seq<Restriction>) -> bool {
    forall|i: int| 0 <= i < rs.len() ==> quote_free((#[trigger] rs[i]).text())
}

/// The text is a word of lowercase letters.
pub open spec fn is_word(t: Seq<char>) -> bool {
    &&& t.len() > 0
    &&& forall|i: int| 0 <= i < t.len() ==> 'a' <= #[trigger] t[i] <= 'z'
}

/// The text holds neither whitespace nor a quote.
pub open spec fn is_plain(t: Seq<char>) -> bool {
    forall|i: int| 0 <= i < t.len() ==> !is_space(#[trigger] t[i]) && !is_quote(t[i])
}

/// Removing quotes from a concatenation removes them from each part.
pub proof fn lemma_without_quotes_concat(a: Seq<char>, b: Seq<char>)
    ensures
        without_quotes(a + b) == without_quotes(a) + without_quotes(b),
    decreases b.len(),
{
    if b.len() == 0 {
        assert(a + b =~= a);
        assert(without_quotes(a) + without_quotes(b) =~= without_quotes(a));
    } else {
        lemma_without_quotes_concat(a, b.drop_last());
        assert((a + b).drop_last() =~= a + b.drop_last());
        assert((a + b).last() == b.last());
        if !is_quote(b.last()) {
            assert((without_quotes(a) + without_quotes(b.drop_last())).push(b.last())
                =~= without_quotes(a) + without_quotes(b.drop_last()).push(b.last()));
        }
    }
}

/// A text without quotes is left as it is.
pub proof fn lemma_without_quotes_of_clean(t: Seq<char>)
    requires
        quote_free(t),
    ensures
        without_quotes(t) == t,
    decreases t.len(),
{
    if t.len() > 0 {
        lemma_without_quotes_of_clean(t.drop_last());
        assert(t.drop_last().push(t.last()) =~= t);
    } else {
        assert(t =~= Seq::<char>::empty());
    }
}

/// What is left after removing quotes holds none.
pub proof fn lemma_without_quotes_is_clean(t: Seq<char>)
    ensures
        quote_free(without_quotes(t)),
    decreases t.len(),
{
    if t.len() > 0 {
        lemma_without_quotes_is_clean(t.drop_last());
    }
}

/// Removing the quotes from a quoted value gives the value back.
pub proof fn lemma_without_quotes_of_quoted(v: Seq<char>)
    requires
        quote_free(v),
    ensures
        without_quotes(quoted(v)) == v,
{
    let q = seq!['"'];
    lemma_without_quotes_concat(q + v, q);
    lemma_without_quotes_concat(q, v);
    lemma_without_quotes_of_clean(v);
    assert(q.last() == '"');
    assert(q.drop_last() =~= Seq::<char>::empty());
    assert(without_quotes(q.drop_last()) =~= Seq::<char>::empty());
    assert(without_quotes(q) =~= Seq::<char>::empty());
    assert(without_quotes(q) + v + without_quotes(q) =~= v);
}

/// Outside quotes, a run without whitespace and quotes belongs to the token
/// it starts.
pub proof fn lemma_token_len_plain(a: Seq<char>, rest: Seq<char>)
    requires
        is_plain(a),
    ensures
        token_len(a + rest, false) == a.len() + token_len(rest, false),
    decreases a.len(),
{
    if a.len() == 0 {
        assert(a + rest =~= rest);
    } else {
        assert((a + rest)[0] == a[0]);
        assert((a + rest).drop_first() =~= a.drop_first() + rest);
        assert forall|i: int| 0 <= i < a.drop_first().len() implies !is_space(
            #[trigger] a.drop_first()[i],
        ) && !is_quote(a.drop_first()[i]) by {
            assert(a.drop_first()[i] == a[i + 1]);
        }
        lemma_token_len_plain(a.drop_first(), rest);
    }
}

/// Inside quotes, everything up to the closing quote belongs to the token.
pub proof fn lemma_token_len_in_quotes(v: Seq<char>, rest: Seq<char>)
    requires
        quote_free(v),
    ensures
        token_len(v + seq!['"'] + rest, true) == v.len() + 1 + token_len(rest, false),
    decreases v.len(),
{
    let s = v + seq!['"'] + rest;
    if v.len() == 0 {
        assert(s[0] == '"');
        assert(s.drop_first() =~= rest);
    } else {
        assert(s[0] == v[0]);
        assert(s.drop_first() =~= v.drop_first() + seq!['"'] + rest);
        assert forall|i: int| 0 <= i < v.drop_first().len() implies !is_quote(
            #[trigger] v.drop_first()[i],
        ) by {
            assert(v.drop_first()[i] == v[i + 1]);
        }
        lemma_token_len_in_quotes(v.drop_first(), rest);
    }
}

/// A quoted value is one token, whatever it holds besides quotes.
pub proof fn lemma_token_len_quoted(v: Seq<char>, rest: Seq<char>)
    requires
        quote_free(v),
    ensures
        token_len(quoted(v) + rest, false) == quoted(v).len() + token_len(rest, false),
{
    let s = quoted(v) + rest;
    assert(s[0] == '"');
    assert(s.drop_first() =~= v + seq!['"'] + rest);
    lemma_token_len_in_quotes(v, rest);
}

/// A token that starts with a word splits where the word ends, if a quote
/// or an operator follows it.
pub proof fn lemma_split_after_word(word: Seq<char>, tail: Seq<char>, k: int)
    requires
        is_word(word),
        0 <= k <= word.len(),
        tail.len() > 0,
        is_quote(tail[0]) || operator_starts(word + tail, word.len() as int),
    ensures
        split_point(word + tail, k) == word.len(),
    decreases word.len() - k,
{
    let t = word + tail;
    if k < word.len() {
        assert(t[k] == word[k]);
        lemma_split_after_word(word, tail, k + 1);
    } else {
        assert(t[k] == tail[0]);
    }
}

/// The digits of a number spell that number.
pub proof fn lemma_digits_spell(n: nat)
    ensures
        digits_of(n).len() > 0,
        all_digits(digits_of(n)),
        digits_value(digits_of(n)) == n,
    decreases n,
{
    if n < 10 {
        let d = digits_of(n);
        assert(d.drop_last() =~= Seq::<char>::empty());
        assert(digits_value(d.drop_last()) == 0);
        assert(d.last() == digit_char(n as int));
    } else {
        lemma_digits_spell(n / 10);
        let front = digits_of(n / 10);
        let d = digits_of(n);
        assert(d.drop_last() =~= front);
        assert(d.last() == digit_char((n % 10) as int));
        assert forall|i: int| 0 <= i < d.len() implies is_digit(#[trigger] d[i]) by {
            if i < front.len() {
                assert(d[i] == front[i]);
            }
        }
    }
}

/// The field names of the language are words, and no two are the same.
pub proof fn lemma_field_names()
    ensures
        is_word("cost"@) && "cost"@.len() == 4 && "cost"@[0] == 'c',
        is_word("health"@) && "health"@.len() == 6 && "health"@[0] == 'h',
        is_word("defense"@) && "defense"@.len() == 7 && "defense"@[0] == 'd',
        is_word("power"@) && "power"@.len() == 5 && "power"@[0] == 'p',
        is_word("name"@) && "name"@.len() == 4 && "name"@[0] == 'n',
        is_word("type"@) && "type"@.len() == 4 && "type"@[0] == 't',
        is_word("description"@) && "description"@.len() == 11 && "description"@[0] == 'd',
        is_word("kins"@) && "kins"@.len() == 4 && "kins"@[0] == 'k',
        is_word("abilities"@) && "abilities"@.len() == 9 && "abilities"@[0] == 'a',
        is_word("functions"@) && "functions"@.len() == 9 && "functions"@[0] == 'f',
        is_word("other"@) && "other"@.len() == 5 && "other"@[0] == 'o',
        is_word("artists"@) && "artists"@.len() == 7 && "artists"@[0] == 'a',
        is_word("keyword"@) && "keyword"@.len() == 7 && "keyword"@[0] == 'k',
{
    reveal_strlit("cost");
    reveal_strlit("health");
    reveal_strlit("defense");
    reveal_strlit("power");
    reveal_strlit("name");
    reveal_strlit("type");
    reveal_strlit("description");
    reveal_strlit("kins");
    reveal_strlit("abilities");
    reveal_strlit("functions");
    reveal_strlit("other");
    reveal_strlit("artists");
    reveal_strlit("keyword");
}

/// The names of the numeric fields are words that the language knows.
pub proof fn lemma_number_field_name(f: NumberField)
    ensures
        is_word(number_field_name(f)),
        field_named(number_field_name(f)) == Some(Field::Number(f)),
{
    lemma_field_names();
}

/// The names of the text fields are words that the language knows.
pub proof fn lemma_text_field_name(f: TextField)
    ensures
        is_word(text_field_name(f)),
        field_named(text_field_name(f)) == Some(Field::Text(f)),
{
    lemma_field_names();
}

/// The names of the set fields are words that the language knows.
pub proof fn lemma_set_field_name(f: SetField)
    ensures
        is_word(set_field_name(f)),
        field_named(set_field_name(f)) == Some(Field::Tags(f)),
{
    lemma_field_names();
}

/// The name of the keyword field is a word that the language knows.
pub proof fn lemma_keyword_field_name()
    ensures
        is_word("keyword"@),
        field_named("keyword"@) == Some(Field::Keyword),
{
    lemma_field_names();
}

/// The token `name:"value"` stands for the colon restriction of the name
/// and the value, and is one token.
pub proof fn lemma_named_token(name: Seq<char>, value: Seq<char>, rest: Seq<char>)
    requires
        is_word(name),
        quote_free(value),
    ensures
        classify(name + seq![':'] + quoted(value)) == colon_restriction(name, value),
        token_len(name + seq![':'] + quoted(value) + rest, false) == (name + seq![':'] + quoted(
            value,
        )).len() + token_len(rest, false),
{
    let tail = seq![':'] + quoted(value);
    let t = name + seq![':'] + quoted(value);
    let k = name.len() as int;
    assert(t =~= name + tail);
    assert((name + tail)[k] == ':');
    lemma_split_after_word(name, tail, 0);
    assert(t.take(k) =~= name);
    assert(t.skip(k + 1) =~= quoted(value));
    lemma_without_quotes_of_quoted(value);
    let head = name + seq![':'];
    assert forall|i: int| 0 <= i < head.len() implies !is_space(#[trigger] head[i]) && !is_quote(
        head[i],
    ) by {
        if i < name.len() {
            assert(head[i] == name[i]);
        }
    }
    assert(t + rest =~= head + (quoted(value) + rest));
    lemma_token_len_plain(head, quoted(value) + rest);
    lemma_token_len_quoted(value, rest);
}

/// The token of a numeric comparison stands for that comparison, and is one
/// token.
pub proof fn lemma_comparison_token(f: NumberField, op: Comparator, n: usize, rest: Seq<char>)
    ensures
        classify(render_one(Restriction::Comparison(f, op, n))) == Ok::<Restriction, ParseError>(
            Restriction::Comparison(f, op, n),
        ),
        token_len(render_one(Restriction::Comparison(f, op, n)) + rest, false) == render_one(
            Restriction::Comparison(f, op, n),
        ).len() + token_len(rest, false),
{
    let name = number_field_name(f);
    let sign = operator_text(op);
    let digits = digits_of(n as nat);
    let t = render_one(Restriction::Comparison(f, op, n));
    let tail = sign + digits;
    let k = name.len() as int;
    lemma_number_field_name(f);
    lemma_digits_spell(n as nat);
    assert(t =~= name + tail);
    assert(is_digit(digits[0]));
    assert((name + tail)[k] == sign[0]);
    assert(sign.len() == 2 ==> (name + tail)[k + 1] == sign[1]);
    assert(sign.len() == 1 ==> (name + tail)[k + 1] == digits[0]);
    lemma_split_after_word(name, tail, 0);
    assert(t.take(k) =~= name);
    let (found, width) = operator_at(t, k);
    assert(found == op && width == sign.len());
    assert(t.skip(k + width) =~= digits);
    assert forall|i: int| 0 <= i < digits.len() implies !is_quote(#[trigger] digits[i]) by {
        assert(is_digit(digits[i]));
    }
    lemma_without_quotes_of_clean(digits);
    assert(number_spelled(digits) == Some(n));
    assert forall|i: int| 0 <= i < t.len() implies !is_space(#[trigger] t[i]) && !is_quote(
        t[i],
    ) by {
        if i < k {
            assert(t[i] == name[i]);
        } else if i < k + sign.len() {
            assert(t[i] == sign[i - k]);
        } else {
            assert(t[i] == digits[i - k - sign.len()]);
            assert(is_digit(digits[i - k - sign.len()]));
        }
    }
    lemma_token_len_plain(t, rest);
}

/// The token that a restriction is rendered as stands for that restriction,
/// is one token, and does not begin with whitespace.
pub proof fn lemma_render_one(r: Restriction, rest: Seq<char>)
    requires
        quote_free(r.text()),
    ensures
        classify(render_one(r)) == Ok::<Restriction, ParseError>(r),
        token_len(render_one(r) + rest, false) == render_one(r).len() + token_len(rest, false),
        render_one(r).len() > 0,
        !is_space(render_one(r)[0]),
{
    match r {
        Restriction::Fuzzy(v) => {
            let t = quoted(v);
            assert(t[0] == '"');
            lemma_without_quotes_of_quoted(v);
            lemma_token_len_quoted(v, rest);
        },
        Restriction::Comparison(f, op, n) => {
            lemma_comparison_token(f, op, n, rest);
            lemma_number_field_name(f);
            let name = number_field_name(f);
            assert(render_one(r)[0] == name[0]);
        },
        Restriction::Contains(f, v) => {
            lemma_text_field_name(f);
            lemma_named_token(text_field_name(f), v, rest);
            assert(render_one(r)[0] == text_field_name(f)[0]);
        },
        Restriction::SetContains(f, v) => {
            lemma_set_field_name(f);
            lemma_named_token(set_field_name(f), v, rest);
            assert(render_one(r)[0] == set_field_name(f)[0]);
        },
        Restriction::KeywordNameContains(v) => {
            lemma_keyword_field_name();
            lemma_named_token("keyword"@, v, rest);
            assert(render_one(r)[0] == "keyword"@[0]);
        },
    }
}

/// Round trip: the canonical text of a restriction list parses back to that
/// list, provided no value in it holds a quote character.
pub proof fn law_render_then_parse(rs: Seq<Restriction>)
    requires
        writable(rs),
    ensures
        parse_spec(render_spec(rs)) == Ok::<Seq<Restriction>, ParseError>(rs),
    decreases rs.len(),
{
    if rs.len() == 0 {
        assert(rs =~= Seq::<Restriction>::empty());
    } else {
        let t = render_one(rs[0]);
        let tail = rs.drop_first();
        assert forall|i: int| 0 <= i < tail.len() implies quote_free((#[trigger] tail[i]).text()) by {
            assert(tail[i] == rs[i + 1]);
        }
        law_render_then_parse(tail);
        if rs.len() == 1 {
            let rest = Seq::<char>::empty();
            lemma_render_one(rs[0], rest);
            assert(t + rest =~= t);
            assert(t.take(t.len() as int) =~= t);
            assert(t.skip(t.len() as int) =~= rest);
            assert(seq![rs[0]] + Seq::<Restriction>::empty() =~= rs);
        } else {
            let rest = seq![' '] + render_spec(tail);
            let s = render_spec(rs);
            lemma_render_one(rs[0], rest);
            assert(s =~= t + rest);
            assert(s[0] == t[0]);
            assert(rest[0] == ' ');
            assert(token_len(rest, false) == 0);
            assert(s.take(t.len() as int) =~= t);
            assert(s.skip(t.len() as int) =~= rest);
            assert(rest.drop_first() =~= render_spec(tail));
            assert(parse_spec(rest) == parse_spec(render_spec(tail)));
            assert(seq![rs[0]] + tail =~= rs);
        }
    }
}

/// The restriction that a token stands for holds no quote character.
pub proof fn lemma_classify_is_writable(t: Seq<char>)
    ensures
        classify(t) matches Ok(r) ==> quote_free(r.text()),
{
    let k = split_point(t, 0);
    lemma_without_quotes_is_clean(t);
    lemma_without_quotes_is_clean(t.skip(k + 1));
    lemma_without_quotes_is_clean(t.skip(k + operator_at(t, k).1));
}

/// The parser never produces a value that holds a quote character.
pub proof fn law_parsed_lists_are_writable(text: Seq<char>)
    ensures
        parse_spec(text) matches Ok(rs) ==> writable(rs),
    decreases text.len(),
{
    if text.len() > 0 {
        if is_space(text[0]) {
            law_parsed_lists_are_writable(text.drop_first());
        } else {
            let n = token_len(text, false);
            lemma_token_len_bound(text, false);
            lemma_classify_is_writable(text.take(n as int));
            law_parsed_lists_are_writable(text.skip(n as int));
        }
    }
}

/// The parser never reports a malformed token: every token that is not a
/// field token reads as a free-text term.
pub proof fn law_malformed_token_is_never_reported(text: Seq<char>)
    ensures
        parse_spec(text) != Err::<Seq<Restriction>, ParseError>(ParseError::MalformedToken),
    decreases text.len(),
{
    if text.len() > 0 {
        if is_space(text[0]) {
            law_malformed_token_is_never_reported(text.drop_first());
        } else {
            let n = token_len(text, false);
            lemma_token_len_bound(text, false);
            law_malformed_token_is_never_reported(text.skip(n as int));
        }
    }
}

/// Round trip from text: rendering what a query parses to and parsing the
/// rendering gives the same restriction list.
pub proof fn law_parse_render_parse(text: Seq<char>)
    ensures
        parse_spec(text) matches Ok(rs) ==> parse_spec(render_spec(rs)) == Ok::<
            Seq<Restriction>,
            ParseError,
        >(rs),
{
    law_parsed_lists_are_writable(text);
    if let Ok(rs) = parse_spec(text) {
        law_render_then_parse(rs);
    }
}

} // verus!
