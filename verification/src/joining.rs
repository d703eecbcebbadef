//! Queries made of parts: what a text parses to when more text is added
//! behind it, and what that does to the cards found.
//!
//! The parts must be separate: a quote that the first part leaves open
//! would swallow the space and the text behind it. The laws are stated for
//! a first part that closes its quotes.

use crate::cards::Card;
use crate::eval::{matches_all, satisfies};
use crate::grammar::{
    classify, is_quote, is_space, lemma_token_len_bound, parse_spec, token_len,
};
use crate::laws::{law_ranking_lists_every_index, lemma_matching_members};
use crate::query::{ParseError, Restriction};
use crate::rank::{arranged, is_ranking, scores_of};
use crate::search::{has_fuzzy, is_search_result, matching};
use vstd::prelude::*;

verus! {

/// Whether a quoted segment is open at the end of the text, given whether
/// one is open at its start.
pub open spec fn quote_open_after(s: Seq<char>, quoted: bool) -> bool
    decreases s.len(),
{
    if s.len() == 0 {
        quoted
    } else {
        quote_open_after(s.drop_first(), quoted != is_quote(s[0]))
    }
}

/// The text leaves no quoted segment open.
pub open spec fn closes_its_quotes(s: Seq<char>) -> bool {
    !quote_open_after(s, false)
}

/// What two parts of a query parse to together: the error of the first
/// part, else the error of the second, else the two lists one after the
/// other.
pub open spec fn joined(
    first: Result<Seq<Restriction>, ParseError>,
    second: Result<Seq<Restriction>, ParseError>,
) -> Result<Seq<Restriction>, ParseError> {
    match first {
        Err(e) => Err(e),
        Ok(a) => match second {
            Err(e) => Err(e),
            Ok(b) => Ok(a + b),
        },
    }
}

/// A token of a text that closes its quotes ends where it ends when
/// whitespace and more text follow.
pub proof fn lemma_token_stays(a: Seq<char>, rest: Seq<char>, quoted: bool)
    requires
        !quote_open_after(a, quoted),
        rest.len() > 0,
        is_space(rest[0]),
    ensures
        token_len(a + rest, quoted) == token_len(a, quoted),
    decreases a.len(),
{
    if a.len() == 0 {
        assert(a + rest =~= rest);
    } else {
        assert((a + rest)[0] == a[0]);
        if !(!quoted && is_space(a[0])) {
            assert((a + rest).drop_first() =~= a.drop_first() + rest);
            lemma_token_stays(a.drop_first(), rest, quoted != is_quote(a[0]));
        }
    }
}

/// Where a token ends before the end of the text, no quoted segment is
/// open.
pub proof fn lemma_state_after_token(a: Seq<char>, quoted: bool)
    ensures
        token_len(a, quoted) < a.len() ==> quote_open_after(a, quoted) == quote_open_after(
            a.skip(token_len(a, quoted) as int),
            false,
        ),
    decreases a.len(),
{
    if a.len() > 0 {
        if !quoted && is_space(a[0]) {
            assert(a.skip(0) =~= a);
        } else {
            let rest = a.drop_first();
            let next = quoted != is_quote(a[0]);
            lemma_state_after_token(rest, next);
            lemma_token_len_bound(rest, next);
            assert(a.skip(token_len(a, quoted) as int) =~= rest.skip(
                token_len(rest, next) as int,
            ));
        }
    }
}

/// A query text followed by a space and more text parses to what the two
/// texts parse to, joined, provided the first closes its quotes.
pub proof fn law_parse_of_joined_texts(a: Seq<char>, b: Seq<char>)
    requires
        closes_its_quotes(a),
    ensures
        parse_spec(a + seq![' '] + b) == joined(parse_spec(a), parse_spec(b)),
    decreases a.len(),
{
    let rest = seq![' '] + b;
    let s = a + seq![' '] + b;
    assert(s =~= a + rest);
    if a.len() == 0 {
        assert(s.drop_first() =~= b);
        match parse_spec(b) {
            Ok(list) => {
                assert(Seq::<Restriction>::empty() + list =~= list);
            },
            Err(_) => {},
        }
    } else if is_space(a[0]) {
        assert(s[0] == a[0]);
        assert(s.drop_first() =~= a.drop_first() + seq![' '] + b);
        law_parse_of_joined_texts(a.drop_first(), b);
    } else {
        let n = token_len(a, false);
        assert(s[0] == a[0]);
        lemma_token_len_bound(a, false);
        lemma_token_stays(a, rest, false);
        lemma_state_after_token(a, false);
        let tail = a.skip(n as int);
        assert(s.take(n as int) =~= a.take(n as int));
        assert(s.skip(n as int) =~= tail + seq![' '] + b);
        if n == a.len() {
            assert(tail =~= Seq::<char>::empty());
        }
        law_parse_of_joined_texts(tail, b);
        match classify(a.take(n as int)) {
            Ok(r) => {
                match (parse_spec(tail), parse_spec(b)) {
                    (Ok(x), Ok(y)) => {
                        assert(seq![r] + (x + y) =~= (seq![r] + x) + y);
                    },
                    _ => {},
                }
            },
            Err(_) => {},
        }
    }
}

/// A card that passes a list with more restrictions behind it passes the
/// list without them.
pub proof fn law_appended_restrictions_only_narrow(
    card: Card,
    restrictions: Seq<Restriction>,
    more: Seq<Restriction>,
    collection: Seq<Card>,
)
    ensures
        matches_all(card, restrictions + more, collection) ==> matches_all(
            card,
            restrictions,
            collection,
        ),
{
    let longer = restrictions + more;
    if matches_all(card, longer, collection) {
        assert forall|i: int| 0 <= i < restrictions.len() implies satisfies(
            card,
            #[trigger] restrictions[i],
            collection,
        ) by {
            assert(longer[i] == restrictions[i]);
        }
    }
}

/// With more restrictions behind a list, no more cards pass.
pub proof fn lemma_matching_no_longer(
    cards: Seq<Card>,
    restrictions: Seq<Restriction>,
    more: Seq<Restriction>,
    collection: Seq<Card>,
)
    ensures
        matching(cards, restrictions + more, collection).len() <= matching(
            cards,
            restrictions,
            collection,
        ).len(),
    decreases cards.len(),
{
    if cards.len() > 0 {
        lemma_matching_no_longer(cards.drop_last(), restrictions, more, collection);
        law_appended_restrictions_only_narrow(cards.last(), restrictions, more, collection);
    }
}

/// The answer to a query holds exactly the cards that pass, each once.
pub proof fn lemma_search_result_cards(
    out: Seq<Card>,
    restrictions: Seq<Restriction>,
    query: Seq<char>,
    collection: Seq<Card>,
    card: Card,
)
    requires
        is_search_result(out, restrictions, query, collection),
    ensures
        out.len() == matching(collection, restrictions, collection).len(),
        out.contains(card) <==> matching(collection, restrictions, collection).contains(card),
{
    let passed = matching(collection, restrictions, collection);
    if has_fuzzy(restrictions) {
        let order = choose|order: Seq<usize>| #[trigger]
            is_ranking(order, scores_of(passed, query)) && out == arranged(passed, order);
        if passed.contains(card) {
            let i = choose|i: int| 0 <= i < passed.len() && passed[i] == card;
            law_ranking_lists_every_index(order, scores_of(passed, query), i);
            let k = choose|k: int| 0 <= k < order.len() && #[trigger] order[k] == i;
            assert(out[k] == card);
        }
        if out.contains(card) {
            let k = choose|k: int| 0 <= k < out.len() && out[k] == card;
            assert(passed[order[k] as int] == card);
        }
    }
}

/// Adding text behind a query can only shrink or preserve what is found:
/// if a query that closes its quotes and the same query with a space and
/// more text behind it both parse, every card in the answer to the longer
/// one is in the answer to the shorter one, and the longer query's answer
/// holds no more cards.
pub proof fn law_longer_query_finds_no_more(
    query: Seq<char>,
    added: Seq<char>,
    found: Seq<Card>,
    found_by_longer: Seq<Card>,
    collection: Seq<Card>,
    card: Card,
)
    requires
        closes_its_quotes(query),
        parse_spec(query) is Ok,
        parse_spec(query + seq![' '] + added) is Ok,
        is_search_result(found, parse_spec(query)->Ok_0, query, collection),
        is_search_result(
            found_by_longer,
            parse_spec(query + seq![' '] + added)->Ok_0,
            query + seq![' '] + added,
            collection,
        ),
    ensures
        found_by_longer.contains(card) ==> found.contains(card),
        found_by_longer.len() <= found.len(),
{
    let longer = query + seq![' '] + added;
    let rs = parse_spec(query)->Ok_0;
    law_parse_of_joined_texts(query, added);
    let more = parse_spec(added)->Ok_0;
    assert(parse_spec(longer) == Ok::<Seq<Restriction>, ParseError>(rs + more));
    lemma_search_result_cards(found, rs, query, collection, card);
    lemma_search_result_cards(found_by_longer, rs + more, longer, collection, card);
    lemma_matching_members(collection, rs, collection, card);
    lemma_matching_members(collection, rs + more, collection, card);
    law_appended_restrictions_only_narrow(card, rs, more, collection);
    lemma_matching_no_longer(collection, rs, more, collection);
}

} // verus!
