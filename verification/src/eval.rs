//! The restriction evaluator: whether a card passes a restriction list.
//!
//! Restrictions combine with logical AND. A keyword that carries a card
//! pattern counts only if some other card of the collection fits the pattern;
//! the pattern itself is tested without looking into that card's own keyword
//! data, so the resolution is one level deep.

use crate::cards::{Card, CardID, Keyword, KeywordData};
use crate::collection::CardCollection;
use crate::query::{
    restrictions_view, Comparator, NumberField, QueryRestriction, Restriction, SetField,
    TextField,
};
use crate::text::{contains_ignore_case, contains_text_ignore_case, same_text};
use vstd::prelude::*;

verus! {

/// The numeric attribute that the selector names.
pub open spec fn number_of(card: Card, field: NumberField) -> usize {
    match field {
        NumberField::Cost => card.cost,
        NumberField::Health => card.health,
        NumberField::Defense => card.defense,
        NumberField::Power => card.power,
    }
}

/// The text attribute that the selector names.
pub open spec fn text_of(card: Card, field: TextField) -> Seq<char> {
    match field {
        TextField::Name => card.name@,
        TextField::Type => card.card_type@,
        TextField::Description => card.description@,
    }
}

/// The set attribute that the selector names.
pub open spec fn tags_of(card: Card, field: SetField) -> Seq<String> {
    match field {
        SetField::Kins => card.kins@,
        SetField::Abilities => card.abilities@,
        SetField::Functions => card.functions@,
        SetField::Other => card.other@,
        SetField::Artists => card.artists@,
    }
}

/// The relation that a comparison operator denotes, on integers.
pub open spec fn compares(op: Comparator, left: usize, right: usize) -> bool {
    match op {
        Comparator::Greater => left > right,
        Comparator::Less => left < right,
        Comparator::Equal => left == right,
        Comparator::NotEqual => left != right,
        Comparator::GreaterOrEqual => left >= right,
        Comparator::LessOrEqual => left <= right,
    }
}

/// The value is an element of the list, character for character.
pub open spec fn has_tag(tags: Seq<String>, value: Seq<char>) -> bool {
    exists|i: int| 0 <= i < tags.len() && (#[trigger] tags[i])@ == value
}

/// Every value of `wanted` is an element of `tags`.
pub open spec fn has_all_tags(tags: Seq<String>, wanted: Seq<String>) -> bool {
    forall|i: int| 0 <= i < wanted.len() ==> has_tag(tags, (#[trigger] wanted[i])@)
}

/// Some element of the list contains the text, ignoring case.
pub open spec fn some_tag_contains(tags: Seq<String>, text: Seq<char>) -> bool {
    exists|i: int| 0 <= i < tags.len() && contains_ignore_case((#[trigger] tags[i])@, text)
}

/// Some keyword of the list has a name that contains the text, ignoring
/// case.
pub open spec fn some_keyword_named(keywords: Seq<Keyword>, text: Seq<char>) -> bool {
    exists|i: int|
        0 <= i < keywords.len() && contains_ignore_case((#[trigger] keywords[i]).name@, text)
}

/// For every keyword of `wanted`, the list holds a keyword whose name
/// contains its name, ignoring case.
pub open spec fn has_all_keywords(keywords: Seq<Keyword>, wanted: Seq<Keyword>) -> bool {
    forall|i: int|
        0 <= i < wanted.len() ==> some_keyword_named(keywords, (#[trigger] wanted[i]).name@)
}

/// The card fits the pattern: each field that the pattern holds constrains
/// the card. Name and type must be equal, the description must contain the
/// pattern's, the statistics must be equal, each listed kin, ability and
/// function must be an element of the card's, and for each listed keyword
/// the card must bear one of that name.
pub open spec fn fits_pattern(pattern: CardID, card: Card) -> bool {
    &&& pattern.name matches Some(n) ==> card.name@ == n@
    &&& pattern.card_type matches Some(t) ==> card.card_type@ == t@
    &&& pattern.description matches Some(d) ==> contains_ignore_case(card.description@, d@)
    &&& pattern.health matches Some(n) ==> card.health == n
    &&& pattern.defense matches Some(n) ==> card.defense == n
    &&& pattern.power matches Some(n) ==> card.power == n
    &&& pattern.kins matches Some(v) ==> has_all_tags(card.kins@, v@)
    &&& pattern.abilities matches Some(v) ==> has_all_tags(card.abilities@, v@)
    &&& pattern.functions matches Some(v) ==> has_all_tags(card.functions@, v@)
    &&& pattern.keywords matches Some(v) ==> has_all_keywords(card.keywords@, v@)
}

/// Some card of the collection other than `card` fits the pattern.
pub open spec fn refers_to_other(pattern: CardID, card: Card, collection: Seq<Card>) -> bool {
    exists|j: int|
        0 <= j < collection.len() && (#[trigger] collection[j]).id@ != card.id@ && fits_pattern(
            pattern,
            collection[j],
        )
}

/// The keyword answers a test for the name `text`: its name contains the
/// text, and if it carries a card pattern, some other card fits it.
pub open spec fn keyword_answers(
    keyword: Keyword,
    text: Seq<char>,
    card: Card,
    collection: Seq<Card>,
) -> bool {
    &&& contains_ignore_case(keyword.name@, text)
    &&& keyword.data matches Some(KeywordData::CardID(pattern)) ==> refers_to_other(
        pattern,
        card,
        collection,
    )
}

/// The card bears a keyword that answers a test for the name `text`.
pub open spec fn bears_keyword(card: Card, text: Seq<char>, collection: Seq<Card>) -> bool {
    exists|i: int|
        0 <= i < card.keywords@.len() && keyword_answers(
            #[trigger] card.keywords@[i],
            text,
            card,
            collection,
        )
}

/// A free-text term matches a card if the name, the type, the description,
/// a kin or the name of a keyword contains it, ignoring case.
pub open spec fn fuzzy_matches(card: Card, text: Seq<char>) -> bool {
    ||| contains_ignore_case(card.name@, text)
    ||| contains_ignore_case(card.card_type@, text)
    ||| contains_ignore_case(card.description@, text)
    ||| some_tag_contains(card.kins@, text)
    ||| some_keyword_named(card.keywords@, text)
}

/// The card satisfies one restriction.
pub open spec fn satisfies(card: Card, restriction: Restriction, collection: Seq<Card>) -> bool {
    match restriction {
        Restriction::Fuzzy(text) => fuzzy_matches(card, text),
        Restriction::Comparison(field, op, n) => compares(op, number_of(card, field), n),
        Restriction::Contains(field, text) => contains_ignore_case(text_of(card, field), text),
        Restriction::SetContains(field, value) => has_tag(tags_of(card, field), value),
        Restriction::KeywordNameContains(text) => bears_keyword(card, text, collection),
    }
}

/// The card satisfies every restriction of the list.
pub open spec fn matches_all(card: Card, restrictions: Seq<Restriction>, collection: Seq<Card>)
    -> bool {
    forall|i: int|
        0 <= i < restrictions.len() ==> satisfies(card, #[trigger] restrictions[i], collection)
}

/// The numeric attribute that the selector names.
pub fn number_field(card: &Card, field: NumberField) -> (n: usize)
    ensures
        n == number_of(*card, field),
{
    match field {
        NumberField::Cost => card.cost,
        NumberField::Health => card.health,
        NumberField::Defense => card.defense,
        NumberField::Power => card.power,
    }
}

/// The text attribute that the selector names.
pub fn text_field<'a>(card: &'a Card, field: TextField) -> (t: &'a str)
    ensures
        t@ == text_of(*card, field),
{
    match field {
        TextField::Name => card.name.as_str(),
        TextField::Type => card.card_type.as_str(),
        TextField::Description => card.description.as_str(),
    }
}

/// The set attribute that the selector names.
pub fn tags_field<'a>(card: &'a Card, field: SetField) -> (t: &'a Vec<String>)
    ensures
        t@ == tags_of(*card, field),
{
    match field {
        SetField::Kins => &card.kins,
        SetField::Abilities => &card.abilities,
        SetField::Functions => &card.functions,
        SetField::Other => &card.other,
        SetField::Artists => &card.artists,
    }
}

/// Applies a comparison operator to two integers.
pub fn compare(op: Comparator, left: usize, right: usize) -> (b: bool)
    ensures
        b == compares(op, left, right),
{
    match op {
        Comparator::Greater => left > right,
        Comparator::Less => left < right,
        Comparator::Equal => left == right,
        Comparator::NotEqual => left != right,
        Comparator::GreaterOrEqual => left >= right,
        Comparator::LessOrEqual => left <= right,
    }
}

/// Whether the value is an element of the list.
pub fn list_has(tags: &Vec<String>, value: &str) -> (b: bool)
    ensures
        b == has_tag(tags@, value@),
{
    let mut i: usize = 0;
    while i < tags.len()
        invariant
            i <= tags.len(),
            forall|k: int| 0 <= k < i ==> (#[trigger] tags@[k])@ != value@,
        decreases tags.len() - i,
    {
        if same_text(tags[i].as_str(), value) {
            return true;
        }
        i += 1;
    }
    false
}

/// Whether every value of `wanted` is an element of `tags`.
pub fn list_has_all(tags: &Vec<String>, wanted: &Vec<String>) -> (b: bool)
    ensures
        b == has_all_tags(tags@, wanted@),
{
    let mut i: usize = 0;
    while i < wanted.len()
        invariant
            i <= wanted.len(),
            forall|k: int| 0 <= k < i ==> has_tag(tags@, (#[trigger] wanted@[k])@),
        decreases wanted.len() - i,
    {
        if !list_has(tags, wanted[i].as_str()) {
            return false;
        }
        i += 1;
    }
    true
}

/// Whether some element of the list contains the text, ignoring case.
pub fn list_contains_text(tags: &Vec<String>, text: &str) -> (b: bool)
    ensures
        b == some_tag_contains(tags@, text@),
{
    let mut i: usize = 0;
    while i < tags.len()
        invariant
            i <= tags.len(),
            forall|k: int| 0 <= k < i ==> !contains_ignore_case((#[trigger] tags@[k])@, text@),
        decreases tags.len() - i,
    {
        if contains_text_ignore_case(tags[i].as_str(), text) {
            return true;
        }
        i += 1;
    }
    false
}

/// Whether some keyword of the list has a name that contains the text,
/// ignoring case.
pub fn keywords_named(keywords: &Vec<Keyword>, text: &str) -> (b: bool)
    ensures
        b == some_keyword_named(keywords@, text@),
{
    let mut i: usize = 0;
    while i < keywords.len()
        invariant
            i <= keywords.len(),
            forall|k: int|
                0 <= k < i ==> !contains_ignore_case((#[trigger] keywords@[k]).name@, text@),
        decreases keywords.len() - i,
    {
        if contains_text_ignore_case(keywords[i].name.as_str(), text) {
            return true;
        }
        i += 1;
    }
    false
}

/// Whether the list holds, for every keyword of `wanted`, a keyword of that
/// name.
pub fn keywords_has_all(keywords: &Vec<Keyword>, wanted: &Vec<Keyword>) -> (b: bool)
    ensures
        b == has_all_keywords(keywords@, wanted@),
{
    let mut i: usize = 0;
    while i < wanted.len()
        invariant
            i <= wanted.len(),
            forall|k: int|
                0 <= k < i ==> some_keyword_named(keywords@, (#[trigger] wanted@[k]).name@),
        decreases wanted.len() - i,
    {
        if !keywords_named(keywords, wanted[i].name.as_str()) {
            return false;
        }
        i += 1;
    }
    true
}

/// Whether the card fits the pattern.
pub fn pattern_fits(pattern: &CardID, card: &Card) -> (b: bool)
    ensures
        b == fits_pattern(*pattern, *card),
{
    let name_ok = match &pattern.name {
        Some(n) => same_text(card.name.as_str(), n.as_str()),
        None => true,
    };
    let type_ok = match &pattern.card_type {
        Some(t) => same_text(card.card_type.as_str(), t.as_str()),
        None => true,
    };
    let description_ok = match &pattern.description {
        Some(d) => contains_text_ignore_case(card.description.as_str(), d.as_str()),
        None => true,
    };
    let health_ok = match pattern.health {
        Some(n) => card.health == n,
        None => true,
    };
    let defense_ok = match pattern.defense {
        Some(n) => card.defense == n,
        None => true,
    };
    let power_ok = match pattern.power {
        Some(n) => card.power == n,
        None => true,
    };
    if !(name_ok && type_ok && description_ok && health_ok && defense_ok && power_ok) {
        return false;
    }
    let kins_ok = match &pattern.kins {
        Some(v) => list_has_all(&card.kins, v),
        None => true,
    };
    let abilities_ok = match &pattern.abilities {
        Some(v) => list_has_all(&card.abilities, v),
        None => true,
    };
    let functions_ok = match &pattern.functions {
        Some(v) => list_has_all(&card.functions, v),
        None => true,
    };
    let keywords_ok = match &pattern.keywords {
        Some(v) => keywords_has_all(&card.keywords, v),
        None => true,
    };
    kins_ok && abilities_ok && functions_ok && keywords_ok
}

/// Whether some card of the collection other than `card` fits the pattern.
pub fn pattern_refers(pattern: &CardID, card: &Card, collection: &Vec<Card>) -> (b: bool)
    ensures
        b == refers_to_other(*pattern, *card, collection@),
{
    let mut j: usize = 0;
    while j < collection.len()
        invariant
            j <= collection.len(),
            forall|k: int|
                0 <= k < j ==> !((#[trigger] collection@[k]).id@ != card.id@ && fits_pattern(
                    *pattern,
                    collection@[k],
                )),
        decreases collection.len() - j,
    {
        let other = &collection[j];
        if !same_text(other.id.as_str(), card.id.as_str()) && pattern_fits(pattern, other) {
            return true;
        }
        j += 1;
    }
    false
}

/// Whether the keyword answers a test for the name `text`.
pub fn keyword_answer(keyword: &Keyword, text: &str, card: &Card, collection: &Vec<Card>) -> (b:
    bool)
    ensures
        b == keyword_answers(*keyword, text@, *card, collection@),
{
    if !contains_text_ignore_case(keyword.name.as_str(), text) {
        return false;
    }
    match &keyword.data {
        Some(KeywordData::CardID(pattern)) => pattern_refers(pattern, card, collection),
        _ => true,
    }
}

/// Whether the card bears a keyword that answers a test for the name `text`.
pub fn card_bears_keyword(card: &Card, text: &str, collection: &Vec<Card>) -> (b: bool)
    ensures
        b == bears_keyword(*card, text@, collection@),
{
    let mut i: usize = 0;
    while i < card.keywords.len()
        invariant
            i <= card.keywords.len(),
            forall|k: int|
                0 <= k < i ==> !keyword_answers(
                    #[trigger] card.keywords@[k],
                    text@,
                    *card,
                    collection@,
                ),
        decreases card.keywords.len() - i,
    {
        if keyword_answer(&card.keywords[i], text, card, collection) {
            return true;
        }
        i += 1;
    }
    false
}

/// Whether a free-text term matches the card.
pub fn fuzzy_match(card: &Card, text: &str) -> (b: bool)
    ensures
        b == fuzzy_matches(*card, text@),
{
    contains_text_ignore_case(card.name.as_str(), text) || contains_text_ignore_case(
        card.card_type.as_str(),
        text,
    ) || contains_text_ignore_case(card.description.as_str(), text) || list_contains_text(
        &card.kins,
        text,
    ) || keywords_named(&card.keywords, text)
}

/// Whether the card satisfies one restriction.
pub fn satisfies_restriction(card: &Card, restriction: &QueryRestriction, collection: &Vec<Card>)
    -> (b: bool)
    ensures
        b == satisfies(*card, restriction@, collection@),
{
    match restriction {
        QueryRestriction::Fuzzy(text) => fuzzy_match(card, text.as_str()),
        QueryRestriction::Comparison(field, op, n) => compare(
            *op,
            number_field(card, *field),
            *n,
        ),
        QueryRestriction::Contains(field, text) => contains_text_ignore_case(
            text_field(card, *field),
            text.as_str(),
        ),
        QueryRestriction::SetContains(field, value) => list_has(
            tags_field(card, *field),
            value.as_str(),
        ),
        QueryRestriction::KeywordNameContains(text) => card_bears_keyword(
            card,
            text.as_str(),
            collection,
        ),
    }
}

/// Whether the card passes the restriction list: it must satisfy every
/// restriction. The empty list lets every card pass.
pub fn matches(card: &Card, restrictions: &Vec<QueryRestriction>, collection: &CardCollection)
    -> (b: bool)
    ensures
        b == matches_all(*card, restrictions_view(restrictions@), collection@),
{
    let cards = collection.cards();
    let mut i: usize = 0;
    while i < restrictions.len()
        invariant
            i <= restrictions.len(),
            cards@ == collection@,
            forall|k: int|
                0 <= k < i ==> satisfies(
                    *card,
                    #[trigger] restrictions_view(restrictions@)[k],
                    collection@,
                ),
        decreases restrictions.len() - i,
    {
        if !satisfies_restriction(card, &restrictions[i], cards) {
            assert(restrictions_view(restrictions@)[i as int] == restrictions@[i as int]@);
            return false;
        }
        assert(restrictions_view(restrictions@)[i as int] == restrictions@[i as int]@);
        i += 1;
    }
    true
}

} // verus!
