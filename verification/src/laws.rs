//! Laws that relate the parser, the evaluator, the ranker and the
//! collection. Each is a proof function over the models that the contracts
//! of the executable functions use.

use crate::cards::{Card, CardID, Keyword, KeywordData};
use crate::collection::{collected, distinct_ids, entered, has_id, index_of_id, lemma_index_of_id};
use crate::eval::{
    bears_keyword, fits_pattern, keyword_answers, matches_all, refers_to_other, satisfies,
};
use crate::text::{contains_ignore_case, lowercase, occurs_at};
use crate::grammar::parse_spec;
use crate::query::{result_view, ParseError, QueryRestriction, Restriction, TextField};
use crate::rank::{
    arranged, best_keyword_similarity, best_tag_similarity, is_ranked, is_ranking, ranks_before,
    score_of, scores_of,
};
use crate::search::{has_fuzzy, is_search_result, matching};
use crate::similarity::{
    lemma_similarity_of_equal, lemma_similarity_without_common_character, no_common_character,
    SIMILARITY_ONE,
};
use vstd::prelude::*;
use vstd::set_lib::{lemma_int_range, lemma_subset_equality, set_int_range};

verus! {

/// Parsing is deterministic: two results that the parser may give for one
/// text are the same list, or the same error.
pub proof fn law_parsing_is_deterministic(
    text: Seq<char>,
    first: Result<Vec<QueryRestriction>, ParseError>,
    second: Result<Vec<QueryRestriction>, ParseError>,
)
    requires
        result_view(first) == parse_spec(text),
        result_view(second) == parse_spec(text),
    ensures
        result_view(first) == result_view(second),
{
}

/// The empty query parses to the empty list, and the empty list lets every
/// card pass, whatever the collection.
pub proof fn law_empty_query_matches_every_card(card: Card, collection: Seq<Card>)
    ensures
        parse_spec(Seq::<char>::empty()) == Ok::<Seq<Restriction>, ParseError>(Seq::empty()),
        matches_all(card, Seq::<Restriction>::empty(), collection),
{
}

/// The empty free-text term matches every card, and so does the empty
/// value of a text restriction.
pub proof fn law_empty_text_matches_every_card(card: Card, field: TextField, collection: Seq<Card>)
    ensures
        satisfies(card, Restriction::Fuzzy(Seq::empty()), collection),
        satisfies(card, Restriction::Contains(field, Seq::empty()), collection),
{
}

/// A card that passes a list with one more restriction in it, at any place,
/// passes the list without it.
pub proof fn law_added_restriction_only_narrows(
    card: Card,
    restrictions: Seq<Restriction>,
    added: Restriction,
    at: int,
    collection: Seq<Card>,
)
    requires
        0 <= at <= restrictions.len(),
    ensures
        matches_all(card, restrictions.insert(at, added), collection) ==> matches_all(
            card,
            restrictions,
            collection,
        ),
{
    let longer = restrictions.insert(at, added);
    if matches_all(card, longer, collection) {
        assert forall|i: int| 0 <= i < restrictions.len() implies satisfies(
            card,
            #[trigger] restrictions[i],
            collection,
        ) by {
            if i < at {
                assert(longer[i] == restrictions[i]);
            } else {
                assert(longer[i + 1] == restrictions[i]);
            }
        }
    }
}

/// The cards that pass are those of the input that satisfy every
/// restriction.
pub proof fn lemma_matching_members(
    cards: Seq<Card>,
    restrictions: Seq<Restriction>,
    collection: Seq<Card>,
    card: Card,
)
    ensures
        matching(cards, restrictions, collection).contains(card) <==> cards.contains(card)
            && matches_all(card, restrictions, collection),
    decreases cards.len(),
{
    if cards.len() > 0 {
        let front = cards.drop_last();
        let rest = matching(front, restrictions, collection);
        lemma_matching_members(front, restrictions, collection, card);
        if cards.contains(card) {
            let i = choose|i: int| 0 <= i < cards.len() && cards[i] == card;
            if i < front.len() {
                assert(front[i] == card);
            }
        }
        if front.contains(card) {
            let i = choose|i: int| 0 <= i < front.len() && front[i] == card;
            assert(cards[i] == card);
        }
        assert(cards[cards.len() - 1] == cards.last());
        if matches_all(cards.last(), restrictions, collection) {
            let out = rest.push(cards.last());
            assert(out[out.len() - 1] == cards.last());
            if rest.contains(card) {
                let i = choose|i: int| 0 <= i < rest.len() && rest[i] == card;
                assert(out[i] == card);
            }
            if out.contains(card) {
                let i = choose|i: int| 0 <= i < out.len() && out[i] == card;
                if i < rest.len() {
                    assert(rest[i] == card);
                }
            }
        }
    }
}

/// Adding a restriction to a query, at any place, can only shrink or
/// preserve the set of cards found: every card found by the longer list is
/// found by the shorter one.
pub proof fn law_added_restriction_shrinks_result(
    cards: Seq<Card>,
    restrictions: Seq<Restriction>,
    added: Restriction,
    at: int,
    collection: Seq<Card>,
    card: Card,
)
    requires
        0 <= at <= restrictions.len(),
    ensures
        matching(cards, restrictions.insert(at, added), collection).contains(card) ==> matching(
            cards,
            restrictions,
            collection,
        ).contains(card),
{
    lemma_matching_members(cards, restrictions.insert(at, added), collection, card);
    lemma_matching_members(cards, restrictions, collection, card);
    law_added_restriction_only_narrows(card, restrictions, added, at, collection);
}

/// The card shares no text with the query: none of its name, type,
/// description, kins and keyword names has a character in common with it.
pub open spec fn shares_no_text(card: Card, query: Seq<char>) -> bool {
    &&& no_common_character(card.name@, query)
    &&& no_common_character(card.card_type@, query)
    &&& no_common_character(card.description@, query)
    &&& forall|i: int|
        0 <= i < card.kins@.len() ==> no_common_character((#[trigger] card.kins@[i])@, query)
    &&& forall|i: int|
        0 <= i < card.keywords@.len() ==> no_common_character(
            (#[trigger] card.keywords@[i]).name@,
            query,
        )
}

/// If no element of the list has a character in common with the query, the
/// best similarity of the list is 0.
pub proof fn lemma_best_tag_of_unrelated(tags: Seq<String>, query: Seq<char>)
    requires
        query.len() > 0,
        forall|i: int| 0 <= i < tags.len() ==> no_common_character((#[trigger] tags[i])@, query),
    ensures
        best_tag_similarity(tags, query) == 0,
    decreases tags.len(),
{
    if tags.len() > 0 {
        let front = tags.drop_last();
        assert forall|i: int| 0 <= i < front.len() implies no_common_character(
            (#[trigger] front[i])@,
            query,
        ) by {
            assert(front[i] == tags[i]);
        }
        lemma_best_tag_of_unrelated(front, query);
        assert(tags.last() == tags[tags.len() - 1]);
        lemma_similarity_without_common_character(tags.last()@, query);
    }
}

/// If no keyword name of the list has a character in common with the query,
/// the best similarity of the list is 0.
pub proof fn lemma_best_keyword_of_unrelated(keywords: Seq<Keyword>, query: Seq<char>)
    requires
        query.len() > 0,
        forall|i: int|
            0 <= i < keywords.len() ==> no_common_character(
                (#[trigger] keywords[i]).name@,
                query,
            ),
    ensures
        best_keyword_similarity(keywords, query) == 0,
    decreases keywords.len(),
{
    if keywords.len() > 0 {
        let front = keywords.drop_last();
        assert forall|i: int| 0 <= i < front.len() implies no_common_character(
            (#[trigger] front[i]).name@,
            query,
        ) by {
            assert(front[i] == keywords[i]);
        }
        lemma_best_keyword_of_unrelated(front, query);
        assert(keywords.last() == keywords[keywords.len() - 1]);
        lemma_similarity_without_common_character(keywords.last().name@, query);
    }
}

/// A card that shares no text with a query that is not empty has score 0.
pub proof fn law_unrelated_card_scores_nothing(card: Card, query: Seq<char>)
    requires
        query.len() > 0,
        shares_no_text(card, query),
    ensures
        score_of(card, query) == 0,
{
    lemma_similarity_without_common_character(card.name@, query);
    lemma_similarity_without_common_character(card.card_type@, query);
    lemma_similarity_without_common_character(card.description@, query);
    lemma_best_tag_of_unrelated(card.kins@, query);
    lemma_best_keyword_of_unrelated(card.keywords@, query);
}

/// When the query text, which is not empty, is a card's exact name, that
/// card's score strictly exceeds the score of any card that shares no text
/// with the query.
pub proof fn law_exact_name_outranks_unrelated(exact: Card, unrelated: Card, query: Seq<char>)
    requires
        query.len() > 0,
        exact.name@ == query,
        shares_no_text(unrelated, query),
    ensures
        score_of(exact, query) >= 20 * SIMILARITY_ONE,
        score_of(unrelated, query) == 0,
        score_of(exact, query) > score_of(unrelated, query),
{
    lemma_similarity_of_equal(query);
    law_unrelated_card_scores_nothing(unrelated, query);
}

/// Entering a card adds its id to the ids of the collection and changes no
/// other.
pub proof fn lemma_entered_ids(cards: Seq<Card>, card: Card, id: Seq<char>)
    ensures
        has_id(entered(cards, card), id) <==> has_id(cards, id) || card.id@ == id,
{
    lemma_index_of_id(cards, card.id@);
    let i = index_of_id(cards, card.id@);
    let out = entered(cards, card);
    if has_id(cards, id) {
        let k = choose|k: int| 0 <= k < cards.len() && (#[trigger] cards[k]).id@ == id;
        if i < cards.len() && k == i {
            assert(out[i].id@ == id);
        } else {
            assert(out[k].id@ == id);
        }
    }
    if card.id@ == id {
        if i < cards.len() {
            assert(out[i].id@ == id);
        } else {
            assert(out[cards.len() as int].id@ == id);
        }
    }
    if has_id(out, id) {
        let k = choose|k: int| 0 <= k < out.len() && (#[trigger] out[k]).id@ == id;
        if i < cards.len() {
            if k != i {
                assert(cards[k].id@ == id);
            }
        } else if k < cards.len() {
            assert(cards[k].id@ == id);
        }
    }
}

/// A collection holds a card for an id exactly if the list it was built
/// from holds one.
pub proof fn law_collection_keeps_every_id(cards: Seq<Card>, id: Seq<char>)
    ensures
        has_id(collected(cards), id) <==> has_id(cards, id),
    decreases cards.len(),
{
    if cards.len() > 0 {
        let front = cards.drop_last();
        law_collection_keeps_every_id(front, id);
        lemma_entered_ids(collected(front), cards.last(), id);
        if has_id(front, id) {
            let k = choose|k: int| 0 <= k < front.len() && (#[trigger] front[k]).id@ == id;
            assert(cards[k].id@ == id);
        }
        if cards.last().id@ == id {
            assert(cards[cards.len() - 1].id@ == id);
        }
        if has_id(cards, id) {
            let k = choose|k: int| 0 <= k < cards.len() && (#[trigger] cards[k]).id@ == id;
            if k < front.len() {
                assert(front[k].id@ == id);
            }
        }
    }
}

/// In a collection, the card found under an id is the only one with that
/// id: a lookup has one possible answer.
pub proof fn law_lookup_answer_is_unique(collection: Seq<Card>, first: Card, second: Card)
    requires
        distinct_ids(collection),
        collection.contains(first),
        collection.contains(second),
        first.id@ == second.id@,
    ensures
        first == second,
{
    let i = choose|i: int| 0 <= i < collection.len() && collection[i] == first;
    let j = choose|j: int| 0 <= j < collection.len() && collection[j] == second;
    if i < j {
        assert(collection[i].id@ != collection[j].id@);
    } else if j < i {
        assert(collection[j].id@ != collection[i].id@);
    }
}

/// A ranking lists every index: it is a permutation of the indices.
pub proof fn law_ranking_lists_every_index(order: Seq<usize>, scores: Seq<u64>, i: int)
    requires
        is_ranking(order, scores),
        0 <= i < scores.len(),
    ensures
        exists|k: int| 0 <= k < order.len() && #[trigger] order[k] == i,
{
    let n = scores.len() as int;
    let ints = Seq::new(order.len(), |k: int| order[k] as int);
    assert forall|k: int, l: int| 0 <= k < ints.len() && 0 <= l < ints.len() && k != l implies
        ints[k] != ints[l] by {
        if k < l {
            assert(ranks_before(scores, order[k] as int, order[l] as int));
        } else {
            assert(ranks_before(scores, order[l] as int, order[k] as int));
        }
    }
    ints.unique_seq_to_set();
    lemma_int_range(0, n);
    assert forall|x: int| ints.to_set().contains(x) implies set_int_range(0, n).contains(x) by {
        let k = choose|k: int| 0 <= k < ints.len() && ints[k] == x;
        assert(order[k] < scores.len());
    }
    vstd::seq_lib::seq_to_set_is_finite(ints);
    lemma_subset_equality(ints.to_set(), set_int_range(0, n));
    assert(set_int_range(0, n).contains(i));
    assert(ints.to_set().contains(i));
    let k = choose|k: int| 0 <= k < ints.len() && ints[k] == i;
    assert(order[k] == i);
}

/// Two rankings of the same scores agree on their first `k` places.
pub proof fn lemma_rankings_agree(first: Seq<usize>, second: Seq<usize>, scores: Seq<u64>, k: int)
    requires
        is_ranking(first, scores),
        is_ranking(second, scores),
        0 <= k <= scores.len(),
    ensures
        forall|j: int| 0 <= j < k ==> first[j] == second[j],
    decreases k,
{
    if k > 0 {
        lemma_rankings_agree(first, second, scores, k - 1);
        let p = k - 1;
        let x = first[p];
        let y = second[p];
        if x != y {
            law_ranking_lists_every_index(second, scores, x as int);
            law_ranking_lists_every_index(first, scores, y as int);
            let lx = choose|l: int| 0 <= l < second.len() && #[trigger] second[l] == x as int;
            let ly = choose|l: int| 0 <= l < first.len() && #[trigger] first[l] == y as int;
            if ranks_before(scores, x as int, y as int) {
                if lx > p {
                    assert(ranks_before(scores, second[p] as int, second[lx] as int));
                } else if lx < p {
                    assert(first[lx] == second[lx]);
                    assert(ranks_before(scores, first[lx] as int, first[p] as int));
                }
            } else {
                assert(ranks_before(scores, y as int, x as int));
                if ly > p {
                    assert(ranks_before(scores, first[p] as int, first[ly] as int));
                } else if ly < p {
                    assert(first[ly] == second[ly]);
                    assert(ranks_before(scores, second[ly] as int, second[p] as int));
                }
            }
        }
    }
}

/// In ranked cards, a card whose name is the query text stands before
/// every card that shares no text with the query, if the query is not
/// empty.
pub proof fn law_exact_name_comes_first(
    out: Seq<Card>,
    cards: Seq<Card>,
    query: Seq<char>,
    exact: int,
    unrelated: int,
)
    requires
        query.len() > 0,
        is_ranked(out, cards, query),
        0 <= exact < out.len(),
        0 <= unrelated < out.len(),
        out[exact].name@ == query,
        shares_no_text(out[unrelated], query),
    ensures
        exact < unrelated,
{
    law_exact_name_outranks_unrelated(out[exact], out[unrelated], query);
    law_ranked_cards(out, out, cards, query);
}

/// In the answer to a query that holds a free-text term, a card whose name
/// is the query text stands before every card that shares no text with the
/// query.
pub proof fn law_search_puts_exact_name_first(
    out: Seq<Card>,
    restrictions: Seq<Restriction>,
    query: Seq<char>,
    collection: Seq<Card>,
    exact: int,
    unrelated: int,
)
    requires
        query.len() > 0,
        has_fuzzy(restrictions),
        is_search_result(out, restrictions, query, collection),
        0 <= exact < out.len(),
        0 <= unrelated < out.len(),
        out[exact].name@ == query,
        shares_no_text(out[unrelated], query),
    ensures
        exact < unrelated,
{
    law_exact_name_comes_first(
        out,
        matching(collection, restrictions, collection),
        query,
        exact,
        unrelated,
    );
}

/// The ranking of a list of scores is unique.
pub proof fn law_ranking_is_unique(first: Seq<usize>, second: Seq<usize>, scores: Seq<u64>)
    requires
        is_ranking(first, scores),
        is_ranking(second, scores),
    ensures
        first == second,
{
    lemma_rankings_agree(first, second, scores, scores.len() as int);
    assert(first =~= second);
}

/// Ranked cards are the input cards, each once, by descending score: a
/// card never stands behind one of lower score, and ranking a list has one
/// possible outcome.
pub proof fn law_ranked_cards(
    out: Seq<Card>,
    other: Seq<Card>,
    cards: Seq<Card>,
    query: Seq<char>,
)
    requires
        is_ranked(out, cards, query),
        is_ranked(other, cards, query),
    ensures
        out == other,
        out.len() == cards.len(),
        forall|k: int, l: int|
            0 <= k < l < out.len() ==> score_of(#[trigger] out[k], query) >= score_of(
                #[trigger] out[l],
                query,
            ),
        forall|i: int| 0 <= i < cards.len() ==> out.contains(#[trigger] cards[i]),
{
    let scores = scores_of(cards, query);
    let a = choose|order: Seq<usize>| #[trigger]
        is_ranking(order, scores) && out == arranged(cards, order);
    let b = choose|order: Seq<usize>| #[trigger]
        is_ranking(order, scores) && other == arranged(cards, order);
    law_ranking_is_unique(a, b, scores);
    assert forall|k: int, l: int| 0 <= k < l < out.len() implies score_of(
        #[trigger] out[k],
        query,
    ) >= score_of(#[trigger] out[l], query) by {
        crate::rank::lemma_score_bound(cards[a[k] as int], query);
        crate::rank::lemma_score_bound(cards[a[l] as int], query);
        assert(ranks_before(scores, a[k] as int, a[l] as int));
    }
    assert forall|i: int| 0 <= i < cards.len() implies out.contains(#[trigger] cards[i]) by {
        law_ranking_lists_every_index(a, scores, i);
        let k = choose|k: int| 0 <= k < a.len() && #[trigger] a[k] == i;
        assert(out[k] == cards[i]);
    }
}

/// Every text contains itself, ignoring case.
pub proof fn lemma_contains_itself(text: Seq<char>)
    ensures
        contains_ignore_case(text, text),
{
    let low = lowercase(text);
    assert(low.subrange(0, low.len() as int) =~= low);
    assert(occurs_at(low, low, 0));
}

/// A card answers a test for a keyword that carries a card pattern exactly
/// if some other card of the collection fits the pattern, provided no other
/// keyword of the card answers to the same name.
pub proof fn law_pattern_keyword_needs_other_card(
    card: Card,
    at: int,
    pattern: CardID,
    text: Seq<char>,
    collection: Seq<Card>,
)
    requires
        0 <= at < card.keywords@.len(),
        card.keywords@[at].data == Some(KeywordData::CardID(pattern)),
        contains_ignore_case(card.keywords@[at].name@, text),
        forall|j: int|
            0 <= j < card.keywords@.len() && j != at ==> !contains_ignore_case(
                (#[trigger] card.keywords@[j]).name@,
                text,
            ),
    ensures
        bears_keyword(card, text, collection) <==> refers_to_other(pattern, card, collection),
{
    if refers_to_other(pattern, card, collection) {
        assert(keyword_answers(card.keywords@[at], text, card, collection));
    }
}

/// A card whose one keyword carries a card pattern answers a test for that
/// keyword's name exactly if some other card of the collection fits the
/// pattern.
pub proof fn law_only_keyword_needs_other_card(
    card: Card,
    pattern: CardID,
    collection: Seq<Card>,
)
    requires
        card.keywords@.len() == 1,
        card.keywords@[0].data == Some(KeywordData::CardID(pattern)),
    ensures
        bears_keyword(card, card.keywords@[0].name@, collection) <==> refers_to_other(
            pattern,
            card,
            collection,
        ),
{
    lemma_contains_itself(card.keywords@[0].name@);
    law_pattern_keyword_needs_other_card(
        card,
        0,
        pattern,
        card.keywords@[0].name@,
        collection,
    );
}

/// A pattern that holds a type and a power, and nothing else, fits exactly
/// the cards of that type and that power.
pub proof fn law_pattern_of_type_and_power(pattern: CardID, card: Card)
    requires
        pattern.card_type is Some,
        pattern.power is Some,
        pattern.name is None,
        pattern.description is None,
        pattern.keywords is None,
        pattern.kins is None,
        pattern.health is None,
        pattern.defense is None,
        pattern.abilities is None,
        pattern.functions is None,
    ensures
        fits_pattern(pattern, card) <==> card.card_type@ == pattern.card_type->0@ && card.power
            == pattern.power->0,
{
}

/// Of the cards that a collection was built from, the last one of each id
/// is in the collection.
pub proof fn law_last_card_of_an_id_stays(cards: Seq<Card>, k: int)
    requires
        0 <= k < cards.len(),
        forall|j: int| k < j < cards.len() ==> (#[trigger] cards[j]).id@ != cards[k].id@,
    ensures
        collected(cards).contains(cards[k]),
    decreases cards.len(),
{
    let front = cards.drop_last();
    let last = cards.last();
    let before = collected(front);
    let after = collected(cards);
    lemma_index_of_id(before, last.id@);
    let i = index_of_id(before, last.id@);
    if k == cards.len() - 1 {
        if i < before.len() {
            assert(after[i] == last);
        } else {
            assert(after[before.len() as int] == last);
        }
    } else {
        assert forall|j: int| k < j < front.len() implies (#[trigger] front[j]).id@
            != front[k].id@ by {
            assert(front[j] == cards[j]);
        }
        law_last_card_of_an_id_stays(front, k);
        assert(cards[cards.len() - 1].id@ != cards[k].id@);
        let p = choose|p: int| 0 <= p < before.len() && before[p] == front[k];
        assert(after[p] == cards[k]);
    }
}

} // verus!
