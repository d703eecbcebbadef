//! The two operations that the library offers to a request handler: search
//! and, in `collection`, lookup.
//!
//! Policy on ranking: the cards that pass the restrictions are ranked by
//! their score against the raw query text whenever the query holds a
//! free-text term; a query of structural restrictions alone returns the
//! cards in collection order.
//!
//! Policy on parse errors: a query that does not parse fails as a whole. The
//! parser's error is handed to the caller; the library does not fall back to
//! a free-text search.

use crate::cards::Card;
use crate::collection::CardCollection;
use crate::eval::matches_all;
use crate::grammar::parse_spec;
use crate::parser::parse;
use crate::query::{restrictions_view, ParseError, QueryRestriction, Restriction};
use crate::rank::{cards_of, is_ranked, rank};
use crate::render::{render, render_spec};
use crate::text::{
    append_chars, chars_of, contains_ignore_case, contains_text_ignore_case, string_of,
};
use vstd::prelude::*;

verus! {

/// The parameters of a search request.
#[derive(Clone, Debug, PartialEq, Eq)]
pub struct QueryParams {
    pub query: Option<String>,
    pub cost: Option<String>,
}

/// What a search request is answered with.
#[derive(Debug, PartialEq)]
pub enum QueryResult<'a> {
    /// The cards found, with the query as the library understood it.
    CardList { query_text: String, content: Vec<&'a Card> },
    /// The query could not be parsed.
    Error { message: String },
}

/// Whether the card's description or name contains the request's query
/// text, ignoring case. The empty query text matches every card; a request
/// without query text matches none.
pub fn fuzzy_search(card: &Card, query: &QueryParams) -> (b: bool)
    ensures
        b == match query.query {
            Some(q) => contains_ignore_case(card.description@, q@) || contains_ignore_case(
                card.name@,
                q@,
            ),
            None => false,
        },
        query.query matches Some(q) && q@.len() == 0 ==> b,
{
    match &query.query {
        Some(q) => contains_text_ignore_case(card.description.as_str(), q.as_str())
            || contains_text_ignore_case(card.name.as_str(), q.as_str()),
        None => false,
    }
}

/// The cards of `cards` that pass the restriction list, in order.
pub open spec fn matching(cards: Seq<Card>, restrictions: Seq<Restriction>, collection: Seq<Card>)
    -> Seq<Card>
    decreases cards.len(),
{
    if cards.len() == 0 {
        Seq::empty()
    } else {
        let rest = matching(cards.drop_last(), restrictions, collection);
        if matches_all(cards.last(), restrictions, collection) {
            rest.push(cards.last())
        } else {
            rest
        }
    }
}

/// The list holds a free-text term.
pub open spec fn has_fuzzy(restrictions: Seq<Restriction>) -> bool {
    exists|i: int| 0 <= i < restrictions.len() && (#[trigger] restrictions[i]).is_fuzzy()
}

/// `out` answers the query: it holds the cards of the collection that pass
/// the restrictions, ranked against the query text if the query holds a
/// free-text term, in collection order otherwise.
pub open spec fn is_search_result(
    out: Seq<Card>,
    restrictions: Seq<Restriction>,
    query: Seq<char>,
    collection: Seq<Card>,
) -> bool {
    let passed = matching(collection, restrictions, collection);
    if has_fuzzy(restrictions) {
        is_ranked(out, passed, query)
    } else {
        out == passed
    }
}

/// The cards of the collection that pass the restriction list, in collection
/// order.
pub fn filter<'a>(restrictions: &Vec<QueryRestriction>, snapshot: &'a CardCollection) -> (out: Vec<
    &'a Card,
>)
    ensures
        cards_of(out@) == matching(snapshot@, restrictions_view(restrictions@), snapshot@),
{
    let cards = snapshot.cards();
    let ghost rs = restrictions_view(restrictions@);
    let mut out: Vec<&'a Card> = Vec::new();
    let mut i: usize = 0;
    assert(cards_of(out@) =~= Seq::<Card>::empty());
    while i < cards.len()
        invariant
            i <= cards.len(),
            cards@ == snapshot@,
            rs == restrictions_view(restrictions@),
            cards_of(out@) == matching(cards@.take(i as int), rs, snapshot@),
        decreases cards.len() - i,
    {
        assert(cards@.take(i + 1).drop_last() =~= cards@.take(i as int));
        let ghost before = cards_of(out@);
        if crate::eval::matches(&cards[i], restrictions, snapshot) {
            out.push(&cards[i]);
            assert(cards_of(out@) =~= before.push(cards@[i as int]));
        }
        i += 1;
    }
    assert(cards@.take(cards.len() as int) =~= cards@);
    out
}

/// Whether the list holds a free-text term.
pub fn has_free_text(restrictions: &Vec<QueryRestriction>) -> (b: bool)
    ensures
        b == has_fuzzy(restrictions_view(restrictions@)),
{
    let mut i: usize = 0;
    while i < restrictions.len()
        invariant
            i <= restrictions.len(),
            forall|k: int|
                0 <= k < i ==> !(#[trigger] restrictions_view(restrictions@)[k]).is_fuzzy(),
        decreases restrictions.len() - i,
    {
        assert(restrictions_view(restrictions@)[i as int] == restrictions@[i as int]@);
        match &restrictions[i] {
            QueryRestriction::Fuzzy(_) => {
                return true;
            },
            _ => {},
        }
        i += 1;
    }
    false
}

/// Applies a parsed query to the collection: filters, then ranks if the
/// query holds a free-text term.
pub fn apply<'a>(
    restrictions: &Vec<QueryRestriction>,
    query_text: &str,
    snapshot: &'a CardCollection,
) -> (out: Vec<&'a Card>)
    ensures
        is_search_result(
            cards_of(out@),
            restrictions_view(restrictions@),
            query_text@,
            snapshot@,
        ),
{
    let passed = filter(restrictions, snapshot);
    if has_free_text(restrictions) {
        rank(&passed, query_text)
    } else {
        passed
    }
}

/// Parses the query text, filters the collection by it and ranks what is
/// left. A query that does not parse gives the parser's error and no cards.
pub fn search<'a>(query_text: &str, snapshot: &'a CardCollection) -> (res: Result<
    Vec<&'a Card>,
    ParseError,
>)
    ensures
        match parse_spec(query_text@) {
            Ok(rs) => res matches Ok(out) && is_search_result(
                cards_of(out@),
                rs,
                query_text@,
                snapshot@,
            ),
            Err(e) => res matches Err(x) && x == e,
        },
{
    match parse(query_text) {
        Ok(restrictions) => Ok(apply(&restrictions, query_text, snapshot)),
        Err(e) => Err(e),
    }
}

/// The name of a parse error.
pub open spec fn error_name(e: ParseError) -> Seq<char> {
    match e {
        ParseError::UnknownField => "UnknownField"@,
        ParseError::InvalidNumber => "InvalidNumber"@,
        ParseError::MalformedToken => "MalformedToken"@,
    }
}

/// The name of a parse error.
pub fn name_of_error(e: ParseError) -> (name: &'static str)
    ensures
        name@ == error_name(e),
{
    match e {
        ParseError::UnknownField => "UnknownField",
        ParseError::InvalidNumber => "InvalidNumber",
        ParseError::MalformedToken => "MalformedToken",
    }
}

/// The message that reports a parse error.
pub open spec fn error_message(e: ParseError) -> Seq<char> {
    "Query couldn't be parsed: "@ + error_name(e)
}

/// The query text of a request: empty where the request holds none.
pub open spec fn query_text_of(params: QueryParams) -> Seq<char> {
    match params.query {
        Some(q) => q@,
        None => Seq::empty(),
    }
}

/// Answers a search request: the cards found together with the canonical
/// text of the query, or a message that reports the parse error.
pub fn respond<'a>(params: &QueryParams, snapshot: &'a CardCollection) -> (out: QueryResult<'a>)
    ensures
        match parse_spec(query_text_of(*params)) {
            Ok(rs) => out matches QueryResult::CardList { query_text, content }
                && query_text@ == render_spec(rs) && is_search_result(
                cards_of(content@),
                rs,
                query_text_of(*params),
                snapshot@,
            ),
            Err(e) => out matches QueryResult::Error { message } && message@ == error_message(e),
        },
{
    let text: &str = match &params.query {
        Some(q) => q.as_str(),
        None => "",
    };
    proof {
        reveal_strlit("");
        assert(text@ =~= query_text_of(*params));
    }
    match parse(text) {
        Ok(restrictions) => {
            let content = apply(&restrictions, text, snapshot);
            QueryResult::CardList { query_text: render(&restrictions), content }
        },
        Err(e) => {
            let mut buffer = chars_of("Query couldn't be parsed: ");
            append_chars(&mut buffer, &chars_of(name_of_error(e)));
            QueryResult::Error { message: string_of(&buffer) }
        },
    }
}

} // verus!
