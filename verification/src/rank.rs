//! The ranker: a relevance score per card, and the order it induces.
//!
//! The score is a weighted sum of similarities, each in millionths, so a
//! score is in ten-millionths: the weights 2.0, 1.8, 1.6, 1.5 and 1.2 are
//! held as 20, 18, 16, 15 and 12.

use crate::cards::{Card, Keyword};
use crate::similarity::{lemma_similarity_bound, similarity, similarity_of, SIMILARITY_ONE};
use crate::text::chars_of;
use vstd::prelude::*;

verus! {

/// Weight of the card name, in tenths.
pub const WEIGHT_NAME: u64 = 20;

/// Weight of the card type, in tenths.
pub const WEIGHT_TYPE: u64 = 18;

/// Weight of the description, in tenths.
pub const WEIGHT_DESCRIPTION: u64 = 16;

/// Weight of the best-matching kin, in tenths.
pub const WEIGHT_KIN: u64 = 15;

/// Weight of the best-matching keyword name, in tenths.
pub const WEIGHT_KEYWORD: u64 = 12;

/// The greatest similarity of an element of the list to the query; 0 for
/// the empty list.
pub open spec fn best_tag_similarity(tags: Seq<String>, query: Seq<char>) -> nat
    decreases tags.len(),
{
    if tags.len() == 0 {
        0
    } else {
        let rest = best_tag_similarity(tags.drop_last(), query);
        let last = similarity(tags.last()@, query);
        if last > rest {
            last
        } else {
            rest
        }
    }
}

/// The greatest similarity of a keyword name to the query; 0 for the empty
/// list.
pub open spec fn best_keyword_similarity(keywords: Seq<Keyword>, query: Seq<char>) -> nat
    decreases keywords.len(),
{
    if keywords.len() == 0 {
        0
    } else {
        let rest = best_keyword_similarity(keywords.drop_last(), query);
        let last = similarity(keywords.last().name@, query);
        if last > rest {
            last
        } else {
            rest
        }
    }
}

/// The relevance score of a card against a query text.
pub open spec fn score_of(card: Card, query: Seq<char>) -> nat {
    WEIGHT_NAME as nat * similarity(card.name@, query) + WEIGHT_TYPE as nat * similarity(
        card.card_type@,
        query,
    ) + WEIGHT_DESCRIPTION as nat * similarity(card.description@, query) + WEIGHT_KIN as nat
        * best_tag_similarity(card.kins@, query) + WEIGHT_KEYWORD as nat
        * best_keyword_similarity(card.keywords@, query)
}

/// The best similarity of a list is a similarity, or 0.
pub proof fn lemma_best_tag_bound(tags: Seq<String>, query: Seq<char>)
    ensures
        best_tag_similarity(tags, query) <= SIMILARITY_ONE,
    decreases tags.len(),
{
    if tags.len() > 0 {
        lemma_best_tag_bound(tags.drop_last(), query);
        lemma_similarity_bound(tags.last()@, query);
    }
}

/// The best similarity of a keyword list is a similarity, or 0.
pub proof fn lemma_best_keyword_bound(keywords: Seq<Keyword>, query: Seq<char>)
    ensures
        best_keyword_similarity(keywords, query) <= SIMILARITY_ONE,
    decreases keywords.len(),
{
    if keywords.len() > 0 {
        lemma_best_keyword_bound(keywords.drop_last(), query);
        lemma_similarity_bound(keywords.last().name@, query);
    }
}

/// A score is at most the sum of the weights times `SIMILARITY_ONE`.
pub proof fn lemma_score_bound(card: Card, query: Seq<char>)
    ensures
        score_of(card, query) <= 81 * SIMILARITY_ONE,
{
    lemma_similarity_bound(card.name@, query);
    lemma_similarity_bound(card.card_type@, query);
    lemma_similarity_bound(card.description@, query);
    lemma_best_tag_bound(card.kins@, query);
    lemma_best_keyword_bound(card.keywords@, query);
}

/// The greatest similarity of an element of the list to the query.
pub fn best_of_tags(tags: &Vec<String>, query: &Vec<char>) -> (best: u64)
    ensures
        best == best_tag_similarity(tags@, query@),
        best <= SIMILARITY_ONE,
{
    let mut best: u64 = 0;
    let mut i: usize = 0;
    while i < tags.len()
        invariant
            i <= tags.len(),
            best == best_tag_similarity(tags@.take(i as int), query@),
        decreases tags.len() - i,
    {
        assert(tags@.take(i + 1).drop_last() =~= tags@.take(i as int));
        let s = similarity_of(&chars_of(tags[i].as_str()), query);
        if s > best {
            best = s;
        }
        i += 1;
    }
    proof {
        assert(tags@.take(tags.len() as int) =~= tags@);
        lemma_best_tag_bound(tags@, query@);
    }
    best
}

/// The greatest similarity of a keyword name to the query.
pub fn best_of_keywords(keywords: &Vec<Keyword>, query: &Vec<char>) -> (best: u64)
    ensures
        best == best_keyword_similarity(keywords@, query@),
        best <= SIMILARITY_ONE,
{
    let mut best: u64 = 0;
    let mut i: usize = 0;
    while i < keywords.len()
        invariant
            i <= keywords.len(),
            best == best_keyword_similarity(keywords@.take(i as int), query@),
        decreases keywords.len() - i,
    {
        assert(keywords@.take(i + 1).drop_last() =~= keywords@.take(i as int));
        let s = similarity_of(&chars_of(keywords[i].name.as_str()), query);
        if s > best {
            best = s;
        }
        i += 1;
    }
    proof {
        assert(keywords@.take(keywords.len() as int) =~= keywords@);
        lemma_best_keyword_bound(keywords@, query@);
    }
    best
}

/// The relevance score of a card against a query text, in ten-millionths.
pub fn score(card: &Card, query: &str) -> (r: u64)
    ensures
        r == score_of(*card, query@),
{
    let q = chars_of(query);
    let name = similarity_of(&chars_of(card.name.as_str()), &q);
    let kind = similarity_of(&chars_of(card.card_type.as_str()), &q);
    let description = similarity_of(&chars_of(card.description.as_str()), &q);
    let kin = best_of_tags(&card.kins, &q);
    let keyword = best_of_keywords(&card.keywords, &q);
    WEIGHT_NAME * name + WEIGHT_TYPE * kind + WEIGHT_DESCRIPTION * description + WEIGHT_KIN * kin
        + WEIGHT_KEYWORD * keyword
}

/// In a ranking, the entry with index `i` comes before the one with index
/// `j`: its score is higher, or the scores are equal and it came first.
pub open spec fn ranks_before(scores: Seq<u64>, i: int, j: int) -> bool {
    scores[i] > scores[j] || (scores[i] == scores[j] && i < j)
}

/// `order` lists the indices of `scores` by descending score, entries of
/// equal score in the order of their indices. Since an index never ranks before
/// itself, no index occurs twice, so `order` is a permutation.
pub open spec fn is_ranking(order: Seq<usize>, scores: Seq<u64>) -> bool {
    &&& order.len() == scores.len()
    &&& forall|k: int| 0 <= k < order.len() ==> (#[trigger] order[k]) < scores.len()
    &&& forall|k: int, l: int|
        0 <= k < l < order.len() ==> ranks_before(
            scores,
            (#[trigger] order[k]) as int,
            (#[trigger] order[l]) as int,
        )
}

/// The order in which the entries rank: by descending score, ties in input
/// order.
pub fn ranking(scores: &Vec<u64>) -> (order: Vec<usize>)
    ensures
        is_ranking(order@, scores@),
{
    let mut order: Vec<usize> = Vec::new();
    let mut i: usize = 0;
    while i < scores.len()
        invariant
            i <= scores.len(),
            order.len() == i,
            forall|k: int| 0 <= k < order.len() ==> (#[trigger] order@[k]) < i,
            forall|k: int, l: int|
                0 <= k < l < order.len() ==> ranks_before(
                    scores@,
                    (#[trigger] order@[k]) as int,
                    (#[trigger] order@[l]) as int,
                ),
        decreases scores.len() - i,
    {
        let mut pos: usize = 0;
        while pos < i && scores[order[pos]] >= scores[i]
            invariant
                pos <= i,
                i < scores.len(),
                order.len() == i,
                forall|k: int| 0 <= k < order.len() ==> (#[trigger] order@[k]) < i,
                forall|k: int| 0 <= k < pos ==> scores@[(#[trigger] order@[k]) as int] >= scores@[i as int],
            decreases i - pos,
        {
            pos += 1;
        }
        let ghost before = order@;
        order.insert(pos, i);
        proof {
            let after = order@;
            assert forall|k: int, l: int| 0 <= k < l < after.len() implies ranks_before(
                scores@,
                (#[trigger] after[k]) as int,
                (#[trigger] after[l]) as int,
            ) by {
                if l < pos {
                    assert(after[k] == before[k] && after[l] == before[l]);
                } else if l == pos {
                    assert(after[k] == before[k]);
                } else if k < pos {
                    assert(after[k] == before[k] && after[l] == before[l - 1]);
                } else if k == pos {
                    assert(after[l] == before[l - 1]);
                    if l - 1 > pos {
                        assert(ranks_before(
                            scores@,
                            before[pos as int] as int,
                            before[l - 1] as int,
                        ));
                    }
                } else {
                    assert(after[k] == before[k - 1] && after[l] == before[l - 1]);
                }
            }
            assert forall|k: int| 0 <= k < after.len() implies (#[trigger] after[k]) < i + 1 by {
                if k < pos {
                    assert(after[k] == before[k]);
                } else if k > pos {
                    assert(after[k] == before[k - 1]);
                }
            }
        }
        i += 1;
    }
    order
}

/// The cards that the references point at, in order.
pub open spec fn cards_of(refs: Seq<&Card>) -> Seq<Card> {
    Seq::new(refs.len(), |i: int| *refs[i])
}

/// The scores of the cards against the query, in order.
pub open spec fn scores_of(cards: Seq<Card>, query: Seq<char>) -> Seq<u64> {
    Seq::new(cards.len(), |i: int| score_of(cards[i], query) as u64)
}

/// The cards taken in the given order of indices.
pub open spec fn arranged(cards: Seq<Card>, order: Seq<usize>) -> Seq<Card> {
    Seq::new(order.len(), |k: int| cards[order[k] as int])
}

/// `out` holds the cards of `cards` by descending score against the query,
/// cards of equal score in the order they have in `cards`.
pub open spec fn is_ranked(out: Seq<Card>, cards: Seq<Card>, query: Seq<char>) -> bool {
    exists|order: Seq<usize>| #[trigger]
        is_ranking(order, scores_of(cards, query)) && out == arranged(cards, order)
}

/// The scores of the cards against the query, in order.
pub fn scores(cards: &Vec<&Card>, query: &str) -> (out: Vec<u64>)
    ensures
        out@ == scores_of(cards_of(cards@), query@),
{
    let mut out: Vec<u64> = Vec::new();
    let mut i: usize = 0;
    while i < cards.len()
        invariant
            i <= cards.len(),
            out.len() == i,
            forall|k: int| 0 <= k < i ==> out@[k] == score_of(*cards@[k], query@),
        decreases cards.len() - i,
    {
        out.push(score(cards[i], query));
        i += 1;
    }
    proof {
        assert forall|k: int| 0 <= k < out.len() implies out@[k] == scores_of(
            cards_of(cards@),
            query@,
        )[k] by {
            lemma_score_bound(*cards@[k], query@);
        }
        assert(out@ =~= scores_of(cards_of(cards@), query@));
    }
    out
}

/// Orders the cards by descending score against the query text. Cards of
/// equal score keep their input order.
pub fn rank<'a>(cards: &Vec<&'a Card>, query: &str) -> (out: Vec<&'a Card>)
    ensures
        is_ranked(cards_of(out@), cards_of(cards@), query@),
{
    let all = scores(cards, query);
    let order = ranking(&all);
    let mut out: Vec<&'a Card> = Vec::new();
    let mut k: usize = 0;
    while k < order.len()
        invariant
            k <= order.len(),
            out.len() == k,
            order.len() == cards.len(),
            forall|j: int| 0 <= j < order.len() ==> (#[trigger] order@[j]) < cards.len(),
            forall|j: int| 0 <= j < k ==> *out@[j] == *cards@[order@[j] as int],
        decreases order.len() - k,
    {
        out.push(cards[order[k]]);
        k += 1;
    }
    proof {
        assert(cards_of(out@) =~= arranged(cards_of(cards@), order@));
        assert(is_ranking(order@, scores_of(cards_of(cards@), query@)));
    }
    out
}

} // verus!
