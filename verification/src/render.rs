//! Rendering a restriction list back to query text.
//!
//! The canonical form writes each restriction as one token and joins the
//! tokens with single spaces. Every text value is written inside quotes, so
//! that whitespace and operator characters in it survive; a number is written
//! in decimal without leading zeros.

use crate::query::{
    restrictions_view, Comparator, NumberField, QueryRestriction, Restriction, SetField,
    TextField,
};
use crate::text::{append_chars, chars_of, string_of};
use vstd::prelude::*;

verus! {

/// The name by which the query language knows a numeric attribute.
pub open spec fn number_field_name(field: NumberField) -> Seq<char> {
    match field {
        NumberField::Cost => "cost"@,
        NumberField::Health => "health"@,
        NumberField::Defense => "defense"@,
        NumberField::Power => "power"@,
    }
}

/// The name by which the query language knows a text attribute.
pub open spec fn text_field_name(field: TextField) -> Seq<char> {
    match field {
        TextField::Name => "name"@,
        TextField::Type => "type"@,
        TextField::Description => "description"@,
    }
}

/// The name by which the query language knows a set attribute.
pub open spec fn set_field_name(field: SetField) -> Seq<char> {
    match field {
        SetField::Kins => "kins"@,
        SetField::Abilities => "abilities"@,
        SetField::Functions => "functions"@,
        SetField::Other => "other"@,
        SetField::Artists => "artists"@,
    }
}

/// How a comparison operator is written.
pub open spec fn operator_text(op: Comparator) -> Seq<char> {
    match op {
        Comparator::Greater => seq!['>'],
        Comparator::Less => seq!['<'],
        Comparator::Equal => seq!['='],
        Comparator::NotEqual => seq!['!', '='],
        Comparator::GreaterOrEqual => seq!['>', '='],
        Comparator::LessOrEqual => seq!['<', '='],
    }
}

/// The character of a decimal digit.
pub open spec fn digit_char(d: int) -> char {
    if d == 0 {
        '0'
    } else if d == 1 {
        '1'
    } else if d == 2 {
        '2'
    } else if d == 3 {
        '3'
    } else if d == 4 {
        '4'
    } else if d == 5 {
        '5'
    } else if d == 6 {
        '6'
    } else if d == 7 {
        '7'
    } else if d == 8 {
        '8'
    } else {
        '9'
    }
}

/// The decimal digits of a number, without leading zeros.
pub open spec fn digits_of(n: nat) -> Seq<char>
    decreases n,
{
    if n < 10 {
        seq![digit_char(n as int)]
    } else {
        digits_of(n / 10).push(digit_char((n % 10) as int))
    }
}

/// A text value between quotes.
pub open spec fn quoted(t: Seq<char>) -> Seq<char> {
    seq!['"'] + t + seq!['"']
}

/// The token that stands for one restriction.
pub open spec fn render_one(r: Restriction) -> Seq<char> {
    match r {
        Restriction::Fuzzy(t) => quoted(t),
        Restriction::Comparison(f, op, n) => number_field_name(f) + operator_text(op)
            + digits_of(n as nat),
        Restriction::Contains(f, t) => text_field_name(f) + seq![':'] + quoted(t),
        Restriction::SetContains(f, v) => set_field_name(f) + seq![':'] + quoted(v),
        Restriction::KeywordNameContains(v) => "keyword"@ + seq![':'] + quoted(v),
    }
}

/// The canonical text of a restriction list: its tokens, joined by single
/// spaces.
pub open spec fn render_spec(rs: Seq<Restriction>) -> Seq<char>
    decreases rs.len(),
{
    if rs.len() == 0 {
        Seq::empty()
    } else if rs.len() == 1 {
        render_one(rs[0])
    } else {
        render_one(rs[0]) + seq![' '] + render_spec(rs.drop_first())
    }
}

/// The character of a decimal digit.
fn digit_to_char(d: usize) -> (c: char)
    requires
        d < 10,
    ensures
        c == digit_char(d as int),
{
    if d == 0 {
        '0'
    } else if d == 1 {
        '1'
    } else if d == 2 {
        '2'
    } else if d == 3 {
        '3'
    } else if d == 4 {
        '4'
    } else if d == 5 {
        '5'
    } else if d == 6 {
        '6'
    } else if d == 7 {
        '7'
    } else if d == 8 {
        '8'
    } else {
        '9'
    }
}

/// The decimal digits of a number, without leading zeros.
pub fn digits(n: usize) -> (out: Vec<char>)
    ensures
        out@ == digits_of(n as nat),
    decreases n,
{
    if n < 10 {
        let mut out: Vec<char> = Vec::new();
        out.push(digit_to_char(n));
        assert(out@ =~= seq![digit_char(n as int)]);
        out
    } else {
        let mut out = digits(n / 10);
        out.push(digit_to_char(n % 10));
        out
    }
}

/// The name by which the query language knows a numeric attribute.
pub fn name_of_number_field(field: NumberField) -> (name: &'static str)
    ensures
        name@ == number_field_name(field),
{
    match field {
        NumberField::Cost => "cost",
        NumberField::Health => "health",
        NumberField::Defense => "defense",
        NumberField::Power => "power",
    }
}

/// The name by which the query language knows a text attribute.
pub fn name_of_text_field(field: TextField) -> (name: &'static str)
    ensures
        name@ == text_field_name(field),
{
    match field {
        TextField::Name => "name",
        TextField::Type => "type",
        TextField::Description => "description",
    }
}

/// The name by which the query language knows a set attribute.
pub fn name_of_set_field(field: SetField) -> (name: &'static str)
    ensures
        name@ == set_field_name(field),
{
    match field {
        SetField::Kins => "kins",
        SetField::Abilities => "abilities",
        SetField::Functions => "functions",
        SetField::Other => "other",
        SetField::Artists => "artists",
    }
}

/// How a comparison operator is written.
pub fn operator_chars(op: Comparator) -> (out: Vec<char>)
    ensures
        out@ == operator_text(op),
{
    let mut out: Vec<char> = Vec::new();
    match op {
        Comparator::Greater => {
            out.push('>');
        },
        Comparator::Less => {
            out.push('<');
        },
        Comparator::Equal => {
            out.push('=');
        },
        Comparator::NotEqual => {
            out.push('!');
            out.push('=');
        },
        Comparator::GreaterOrEqual => {
            out.push('>');
            out.push('=');
        },
        Comparator::LessOrEqual => {
            out.push('<');
            out.push('=');
        },
    }
    assert(out@ =~= operator_text(op));
    out
}

/// Appends a text value between quotes.
pub fn append_quoted(buffer: &mut Vec<char>, text: &str)
    ensures
        final(buffer)@ == old(buffer)@ + quoted(text@),
{
    buffer.push('"');
    append_chars(buffer, &chars_of(text));
    buffer.push('"');
    assert(buffer@ =~= old(buffer)@ + quoted(text@));
}

/// Appends the token `name:"value"`.
pub fn append_named(buffer: &mut Vec<char>, name: &str, value: &str)
    ensures
        final(buffer)@ == old(buffer)@ + (name@ + seq![':'] + quoted(value@)),
{
    append_chars(buffer, &chars_of(name));
    buffer.push(':');
    append_quoted(buffer, value);
    assert(buffer@ =~= old(buffer)@ + (name@ + seq![':'] + quoted(value@)));
}

/// Appends the token that stands for one restriction.
pub fn append_restriction(buffer: &mut Vec<char>, restriction: &QueryRestriction)
    ensures
        final(buffer)@ == old(buffer)@ + render_one(restriction@),
{
    match restriction {
        QueryRestriction::Fuzzy(t) => {
            append_quoted(buffer, t.as_str());
        },
        QueryRestriction::Comparison(f, op, n) => {
            append_chars(buffer, &chars_of(name_of_number_field(*f)));
            append_chars(buffer, &operator_chars(*op));
            append_chars(buffer, &digits(*n));
            assert(buffer@ =~= old(buffer)@ + (number_field_name(*f) + operator_text(*op)
                + digits_of(*n as nat)));
        },
        QueryRestriction::Contains(f, t) => {
            append_named(buffer, name_of_text_field(*f), t.as_str());
        },
        QueryRestriction::SetContains(f, v) => {
            append_named(buffer, name_of_set_field(*f), v.as_str());
        },
        QueryRestriction::KeywordNameContains(v) => {
            append_named(buffer, "keyword", v.as_str());
        },
    }
}

/// The canonical query text of a restriction list.
pub fn render(restrictions: &Vec<QueryRestriction>) -> (text: String)
    ensures
        text@ == render_spec(restrictions_view(restrictions@)),
{
    let ghost rs = restrictions_view(restrictions@);
    let mut buffer: Vec<char> = Vec::new();
    let mut i: usize = 0;
    assert(rs.skip(0) =~= rs);
    while i < restrictions.len()
        invariant
            i <= restrictions.len(),
            rs == restrictions_view(restrictions@),
            rs.len() == restrictions.len(),
            i == 0 ==> buffer@.len() == 0,
            render_spec(rs) == if i == 0 {
                render_spec(rs.skip(0))
            } else if i < rs.len() {
                buffer@ + seq![' '] + render_spec(rs.skip(i as int))
            } else {
                buffer@
            },
        decreases restrictions.len() - i,
    {
        let ghost before = buffer@;
        let ghost rest = rs.skip(i as int);
        if i > 0 {
            buffer.push(' ');
        }
        append_restriction(&mut buffer, &restrictions[i]);
        proof {
            assert(rest[0] == restrictions@[i as int]@);
            assert(rest.drop_first() =~= rs.skip(i + 1));
            let piece = render_one(rest[0]);
            if i + 1 < rs.len() {
                assert(render_spec(rest) == piece + seq![' '] + render_spec(rs.skip(i + 1)));
                if i == 0 {
                    assert(buffer@ =~= piece);
                } else {
                    assert(buffer@ + seq![' '] + render_spec(rs.skip(i + 1)) =~= before + seq![
                        ' ',
                    ] + (piece + seq![' '] + render_spec(rs.skip(i + 1))));
                }
            } else {
                assert(render_spec(rest) == piece);
                if i == 0 {
                    assert(buffer@ =~= piece);
                } else {
                    assert(buffer@ =~= before + seq![' '] + piece);
                }
            }
        }
        i += 1;
    }
    string_of(&buffer)
}

} // verus!
