//! String similarity by shared trigrams, in integer arithmetic.
//!
//! A text of `n` characters is padded with two spaces in front and one
//! behind, which gives it `n + 1` trigrams. The similarity of a text to a
//! query is the share of the text's trigrams that also occur in the query,
//! in millionths: 0 when none is shared, `SIMILARITY_ONE` when all are. An
//! empty text has nothing to share: its similarity to any query is 0.

use vstd::prelude::*;

verus! {

/// The similarity of a text whose trigrams all occur in the query.
pub const SIMILARITY_ONE: u64 = 1_000_000;

/// Three adjacent characters of a padded text.
pub struct Trigram(pub char, pub char, pub char);

/// The character at index `k` of the text, a space outside it.
pub open spec fn char_or_space(s: Seq<char>, k: int) -> char {
    if 0 <= k < s.len() {
        s[k]
    } else {
        ' '
    }
}

/// The `i`-th trigram of the padded text, for `0 <= i <= s.len()`: it ends
/// at the character with index `i`.
pub open spec fn trigram(s: Seq<char>, i: int) -> Trigram {
    Trigram(char_or_space(s, i - 2), char_or_space(s, i - 1), char_or_space(s, i))
}

/// The trigram occurs among those of the text.
pub open spec fn has_trigram(s: Seq<char>, t: Trigram) -> bool {
    exists|j: int| 0 <= j <= s.len() && #[trigger] trigram(s, j) == t
}

/// How many of the first `n` trigrams of `text` occur in `query`.
pub open spec fn shared_trigrams(text: Seq<char>, query: Seq<char>, n: int) -> nat
    decreases n,
{
    if n <= 0 {
        0
    } else {
        shared_trigrams(text, query, n - 1) + if has_trigram(query, trigram(text, n - 1)) {
            1nat
        } else {
            0nat
        }
    }
}

/// The similarity of `text` to `query`, in millionths, rounded down; 0 for
/// the empty text.
pub open spec fn similarity(text: Seq<char>, query: Seq<char>) -> nat {
    if text.len() == 0 {
        0
    } else {
        (shared_trigrams(text, query, text.len() as int + 1) * SIMILARITY_ONE as nat / (
        text.len() + 1) as nat) as nat
    }
}

/// The two texts have no character in common.
pub open spec fn no_common_character(text: Seq<char>, query: Seq<char>) -> bool {
    forall|i: int, j: int|
        0 <= i < text.len() && 0 <= j < query.len() ==> #[trigger] text[i] != #[trigger] query[j]
}

/// No more trigrams are shared than were looked at.
pub proof fn lemma_shared_bound(text: Seq<char>, query: Seq<char>, n: int)
    requires
        0 <= n,
    ensures
        shared_trigrams(text, query, n) <= n,
    decreases n,
{
    if n > 0 {
        lemma_shared_bound(text, query, n - 1);
    }
}

/// If each of the first `n` trigrams of the text occurs in the query, all
/// `n` are shared.
pub proof fn lemma_shared_all(text: Seq<char>, query: Seq<char>, n: int)
    requires
        0 <= n,
        forall|i: int| 0 <= i < n ==> has_trigram(query, #[trigger] trigram(text, i)),
    ensures
        shared_trigrams(text, query, n) == n,
    decreases n,
{
    if n > 0 {
        lemma_shared_all(text, query, n - 1);
    }
}

/// If none of the first `n` trigrams of the text occurs in the query, none
/// is shared.
pub proof fn lemma_shared_none(text: Seq<char>, query: Seq<char>, n: int)
    requires
        forall|i: int| 0 <= i < n ==> !has_trigram(query, #[trigger] trigram(text, i)),
    ensures
        shared_trigrams(text, query, n) == 0,
    decreases n,
{
    if n > 0 {
        lemma_shared_none(text, query, n - 1);
    }
}

/// A similarity lies between 0 and `SIMILARITY_ONE`.
pub proof fn lemma_similarity_bound(text: Seq<char>, query: Seq<char>)
    ensures
        similarity(text, query) <= SIMILARITY_ONE,
{
    let n = text.len() as int + 1;
    let c = shared_trigrams(text, query, n) as int;
    lemma_shared_bound(text, query, n);
    assert(c * 1_000_000 / n <= 1_000_000) by (nonlinear_arith)
        requires
            0 <= c <= n,
            n > 0,
    ;
}

/// A text that is not empty is as similar as can be to itself.
pub proof fn lemma_similarity_of_equal(text: Seq<char>)
    requires
        text.len() > 0,
    ensures
        similarity(text, text) == SIMILARITY_ONE,
{
    let n = text.len() as int + 1;
    assert forall|i: int| 0 <= i < n implies has_trigram(text, #[trigger] trigram(text, i)) by {}
    lemma_shared_all(text, text, n);
    assert(n * 1_000_000 / n == 1_000_000) by (nonlinear_arith)
        requires
            n > 0,
    ;
}

/// A text that has no character in common with a query that is not empty
/// shares no trigram with it: its similarity is 0.
pub proof fn lemma_similarity_without_common_character(text: Seq<char>, query: Seq<char>)
    requires
        query.len() > 0,
        no_common_character(text, query),
    ensures
        similarity(text, query) == 0,
{
    if text.len() > 0 {
        let n = text.len() as int;
        let m = query.len() as int;
        assert forall|i: int| 0 <= i <= n implies !has_trigram(query, #[trigger] trigram(text, i)) by {
            assert forall|j: int| 0 <= j <= m implies #[trigger] trigram(query, j) != trigram(
                text,
                i,
            ) by {
                let t = trigram(text, i);
                let q = trigram(query, j);
                if i < n && j < m {
                    assert(t.2 == text[i] && q.2 == query[j]);
                } else if i == n && j == m {
                    assert(t.1 == text[n - 1] && q.1 == query[m - 1]);
                } else if i < n {
                    assert(t.2 == text[i] && q.2 == ' ');
                    assert(q.1 == query[m - 1]);
                    if i >= 1 {
                        assert(t.1 == text[i - 1]);
                    } else {
                        assert(t.1 == ' ');
                    }
                } else {
                    assert(q.2 == query[j] && t.2 == ' ');
                    assert(t.1 == text[n - 1]);
                    if j >= 1 {
                        assert(q.1 == query[j - 1]);
                    } else {
                        assert(q.1 == ' ');
                    }
                }
            }
        }
        lemma_shared_none(text, query, n + 1);
    }
}

/// The character at index `k` of the text, a space past its end.
fn char_at(s: &Vec<char>, k: usize) -> (c: char)
    ensures
        c == char_or_space(s@, k as int),
{
    if k < s.len() {
        s[k]
    } else {
        ' '
    }
}

/// The `i`-th trigram of the padded text.
fn trigram_at(s: &Vec<char>, i: usize) -> (t: Trigram)
    requires
        i <= s.len(),
    ensures
        t == trigram(s@, i as int),
{
    let first = if i >= 2 {
        char_at(s, i - 2)
    } else {
        ' '
    };
    let second = if i >= 1 {
        char_at(s, i - 1)
    } else {
        ' '
    };
    Trigram(first, second, char_at(s, i))
}

/// Whether the trigram occurs among those of the text.
pub fn contains_trigram(s: &Vec<char>, t: &Trigram) -> (b: bool)
    ensures
        b == has_trigram(s@, *t),
{
    let mut j: usize = 0;
    loop
        invariant
            j <= s.len(),
            forall|k: int| 0 <= k < j ==> #[trigger] trigram(s@, k) != *t,
        decreases s.len() - j,
    {
        let u = trigram_at(s, j);
        if u.0 == t.0 && u.1 == t.1 && u.2 == t.2 {
            return true;
        }
        if j == s.len() {
            return false;
        }
        j += 1;
    }
}

/// The similarity of `text` to `query`, in millionths.
pub fn similarity_of(text: &Vec<char>, query: &Vec<char>) -> (r: u64)
    ensures
        r == similarity(text@, query@),
        r <= SIMILARITY_ONE,
{
    if text.len() == 0 {
        return 0;
    }
    let mut shared: u128 = 0;
    let mut i: usize = 0;
    loop
        invariant_except_break
            i <= text.len(),
            shared == shared_trigrams(text@, query@, i as int),
        ensures
            shared == shared_trigrams(text@, query@, text.len() + 1),
        decreases text.len() - i,
    {
        proof {
            lemma_shared_bound(text@, query@, i as int);
        }
        let t = trigram_at(text, i);
        if contains_trigram(query, &t) {
            shared += 1;
        }
        if i == text.len() {
            break;
        }
        i += 1;
    }
    proof {
        lemma_shared_bound(text@, query@, text.len() + 1);
        lemma_similarity_bound(text@, query@);
    }
    let total: u128 = text.len() as u128 + 1;
    (shared * 1_000_000 / total) as u64
}

} // verus!
