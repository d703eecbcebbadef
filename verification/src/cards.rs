//! The card model: the attribute schema that every query predicate reads.

use std::collections::HashMap;
use vstd::prelude::*;

verus! {

/// A card of the catalogue. Records are immutable once loaded.
#[derive(Clone, Debug, PartialEq)]
pub struct Card {
    /// Unique key of the card within a collection.
    pub id: String,
    pub name: String,
    pub img: Vec<String>,
    pub description: String,
    pub cost: usize,
    pub health: usize,
    pub defense: usize,
    pub power: usize,
    /// The card's category, a free string.
    pub card_type: String,
    pub keywords: Vec<Keyword>,
    pub kins: Vec<String>,
    pub abilities: Vec<String>,
    pub artists: Vec<String>,
    /// Edition identifier.
    pub set: String,
    /// Legality status by format name.
    pub legality: HashMap<String, String>,
    pub other: Vec<String>,
    pub functions: Vec<String>,
}

impl Card {
    pub fn get_cost(&self) -> (r: usize)
        ensures
            r == self.cost,
    {
        self.cost
    }

    pub fn get_name(&self) -> (r: &str)
        ensures
            r@ == self.name@,
    {
        self.name.as_str()
    }

    pub fn get_type(&self) -> (r: &str)
        ensures
            r@ == self.card_type@,
    {
        self.card_type.as_str()
    }

    pub fn get_kins(&self) -> (r: &[String])
        ensures
            r@ == self.kins@,
    {
        self.kins.as_slice()
    }

    pub fn get_keywords(&self) -> (r: &[Keyword])
        ensures
            r@ == self.keywords@,
    {
        self.keywords.as_slice()
    }

    pub fn get_health(&self) -> (r: usize)
        ensures
            r == self.health,
    {
        self.health
    }

    pub fn get_power(&self) -> (r: usize)
        ensures
            r == self.power,
    {
        self.power
    }

    pub fn get_defense(&self) -> (r: usize)
        ensures
            r == self.defense,
    {
        self.defense
    }
}

/// A partial card pattern: each field that is present constrains the cards
/// the pattern refers to.
#[derive(Debug, PartialEq)]
pub struct CardID {
    pub name: Option<String>,
    pub description: Option<String>,
    pub keywords: Option<Vec<Keyword>>,
    pub card_type: Option<String>,
    pub kins: Option<Vec<String>>,
    pub health: Option<usize>,
    pub defense: Option<usize>,
    pub power: Option<usize>,
    pub abilities: Option<Vec<String>>,
    pub functions: Option<Vec<String>>,
}

/// What a keyword carries besides its name.
#[derive(Debug, PartialEq)]
pub enum KeywordData {
    /// The keyword refers to the other cards that match this pattern.
    CardID(CardID),
    /// A literal value, such as reminder text.
    String(String),
}

/// A keyword on a card.
#[derive(Debug, PartialEq)]
pub struct Keyword {
    pub name: String,
    pub data: Option<KeywordData>,
}

/// Two optional lists hold the same strings, or are both absent.
pub open spec fn same_list(a: Option<Vec<String>>, b: Option<Vec<String>>) -> bool {
    match (a, b) {
        (Some(x), Some(y)) => x@ == y@,
        (None, None) => true,
        _ => false,
    }
}

/// Two keywords are alike: the same name, and data of the same shape that
/// holds the same value or like patterns.
pub open spec fn same_keyword(a: Keyword, b: Keyword) -> bool
    decreases a,
{
    &&& a.name == b.name
    &&& match (a.data, b.data) {
        (None, None) => true,
        (Some(KeywordData::String(s)), Some(KeywordData::String(t))) => s == t,
        (Some(KeywordData::CardID(p)), Some(KeywordData::CardID(q))) => same_pattern(p, q),
        _ => false,
    }
}

/// Two keyword lists are alike: of one length, with like keywords at each
/// place.
pub open spec fn same_keywords(a: Seq<Keyword>, b: Seq<Keyword>) -> bool
    decreases a,
{
    &&& a.len() == b.len()
    &&& forall|i: int| 0 <= i < a.len() ==> same_keyword(#[trigger] a[i], b[i])
}

/// Two patterns are alike: each field is present in both or in neither, and
/// where present holds the same value, the same strings or like keywords.
pub open spec fn same_pattern(p: CardID, q: CardID) -> bool
    decreases p,
{
    &&& p.name == q.name
    &&& p.description == q.description
    &&& p.card_type == q.card_type
    &&& p.health == q.health
    &&& p.defense == q.defense
    &&& p.power == q.power
    &&& same_list(p.kins, q.kins)
    &&& same_list(p.abilities, q.abilities)
    &&& same_list(p.functions, q.functions)
    &&& match (p.keywords, q.keywords) {
        (Some(x), Some(y)) => same_keywords(x@, y@),
        (None, None) => true,
        _ => false,
    }
}

/// Two pieces of keyword data are alike.
pub open spec fn same_data(a: KeywordData, b: KeywordData) -> bool {
    match (a, b) {
        (KeywordData::String(s), KeywordData::String(t)) => s == t,
        (KeywordData::CardID(p), KeywordData::CardID(q)) => same_pattern(p, q),
        _ => false,
    }
}

/// A copy of a list of strings.
fn copy_strings(v: &Vec<String>) -> (out: Vec<String>)
    ensures
        out@ == v@,
{
    let mut out: Vec<String> = Vec::new();
    let mut i: usize = 0;
    while i < v.len()
        invariant
            i <= v.len(),
            out@ == v@.take(i as int),
        decreases v.len() - i,
    {
        out.push(v[i].clone());
        assert(out@ =~= v@.take(i + 1));
        i += 1;
    }
    assert(v@.take(v.len() as int) =~= v@);
    out
}

/// A copy of a keyword, with the pattern it may carry.
fn copy_keyword(k: &Keyword) -> (out: Keyword)
    ensures
        same_keyword(*k, out),
    decreases k,
{
    let data = match &k.data {
        None => None,
        Some(KeywordData::String(s)) => Some(KeywordData::String(s.clone())),
        Some(KeywordData::CardID(p)) => Some(KeywordData::CardID(copy_pattern(p))),
    };
    Keyword { name: k.name.clone(), data }
}

/// A copy of a keyword list.
fn copy_keywords(v: &Vec<Keyword>) -> (out: Vec<Keyword>)
    ensures
        same_keywords(v@, out@),
    decreases v,
{
    let mut out: Vec<Keyword> = Vec::new();
    let mut i: usize = 0;
    while i < v.len()
        invariant
            i <= v.len(),
            out.len() == i,
            forall|j: int| 0 <= j < i ==> same_keyword(#[trigger] v@[j], out@[j]),
        decreases v.len() - i,
    {
        out.push(copy_keyword(&v[i]));
        i += 1;
    }
    assert(v@.take(v.len() as int) =~= v@);
    out
}

/// A copy of a card pattern.
fn copy_pattern(p: &CardID) -> (out: CardID)
    ensures
        same_pattern(*p, out),
    decreases p,
{
    CardID {
        name: match &p.name {
            None => None,
            Some(s) => Some(s.clone()),
        },
        description: match &p.description {
            None => None,
            Some(s) => Some(s.clone()),
        },
        keywords: match &p.keywords {
            None => None,
            Some(v) => Some(copy_keywords(v)),
        },
        card_type: match &p.card_type {
            None => None,
            Some(s) => Some(s.clone()),
        },
        kins: match &p.kins {
            None => None,
            Some(v) => Some(copy_strings(v)),
        },
        health: p.health,
        defense: p.defense,
        power: p.power,
        abilities: match &p.abilities {
            None => None,
            Some(v) => Some(copy_strings(v)),
        },
        functions: match &p.functions {
            None => None,
            Some(v) => Some(copy_strings(v)),
        },
    }
}

impl Clone for Keyword {
    fn clone(&self) -> (out: Self)
        ensures
            same_keyword(*self, out),
    {
        copy_keyword(self)
    }
}

impl Clone for KeywordData {
    fn clone(&self) -> (out: Self)
        ensures
            same_data(*self, out),
    {
        match self {
            KeywordData::String(s) => KeywordData::String(s.clone()),
            KeywordData::CardID(p) => KeywordData::CardID(copy_pattern(p)),
        }
    }
}

impl Clone for CardID {
    fn clone(&self) -> (out: Self)
        ensures
            same_pattern(*self, out),
    {
        copy_pattern(self)
    }
}

} // verus!
