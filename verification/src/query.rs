//! The typed form of a query: an ordered list of restrictions, each naming the
//! card attribute it reads through an enumerated selector.

use vstd::prelude::*;

verus! {

/// A numeric attribute of a card.
#[derive(Clone, Copy, Debug, PartialEq, Eq, Structural)]
pub enum NumberField {
    Cost,
    Health,
    Defense,
    Power,
}

/// A free-text attribute of a card.
#[derive(Clone, Copy, Debug, PartialEq, Eq, Structural)]
pub enum TextField {
    Name,
    Type,
    Description,
}

/// A set-valued attribute of a card.
#[derive(Clone, Copy, Debug, PartialEq, Eq, Structural)]
pub enum SetField {
    Kins,
    Abilities,
    Functions,
    Other,
    Artists,
}

/// The operator of a numeric comparison.
#[derive(Clone, Copy, Debug, PartialEq, Eq, Structural)]
pub enum Comparator {
    Greater,
    Less,
    Equal,
    NotEqual,
    GreaterOrEqual,
    LessOrEqual,
}

/// What a field name of the query language selects.
#[derive(Clone, Copy, Debug, PartialEq, Eq, Structural)]
pub enum Field {
    Number(NumberField),
    Text(TextField),
    Tags(SetField),
    Keyword,
}

/// Why a query text was rejected.
#[derive(Clone, Copy, Debug, PartialEq, Eq, Structural)]
pub enum ParseError {
    /// A restriction names an attribute the language does not know.
    UnknownField,
    /// The right-hand side of a numeric comparison is not a non-negative
    /// integer that fits the machine word.
    InvalidNumber,
    /// A token of no recognised shape. The present grammar reads every such
    /// token as a free-text term, so the parser never returns this.
    MalformedToken,
}

/// One parsed predicate over a card.
#[derive(Clone, Debug, PartialEq, Eq)]
pub enum QueryRestriction {
    /// A free-text term.
    Fuzzy(String),
    /// The numeric attribute stands in the given relation to the number.
    Comparison(NumberField, Comparator, usize),
    /// The text attribute contains the text, ignoring case.
    Contains(TextField, String),
    /// The set attribute has the value as an element.
    SetContains(SetField, String),
    /// Some keyword of the card has a name that contains the text, ignoring
    /// case.
    KeywordNameContains(String),
}

/// The mathematical model of a [`QueryRestriction`]: texts are character
/// sequences.
pub enum Restriction {
    Fuzzy(Seq<char>),
    Comparison(NumberField, Comparator, usize),
    Contains(TextField, Seq<char>),
    SetContains(SetField, Seq<char>),
    KeywordNameContains(Seq<char>),
}

impl View for QueryRestriction {
    type V = Restriction;

    open spec fn view(&self) -> Restriction {
        match self {
            QueryRestriction::Fuzzy(t) => Restriction::Fuzzy(t@),
            QueryRestriction::Comparison(f, op, n) => Restriction::Comparison(*f, *op, *n),
            QueryRestriction::Contains(f, t) => Restriction::Contains(*f, t@),
            QueryRestriction::SetContains(f, t) => Restriction::SetContains(*f, t@),
            QueryRestriction::KeywordNameContains(t) => Restriction::KeywordNameContains(t@),
        }
    }
}

/// The model of a restriction list: the models of its elements, in order.
pub open spec fn restrictions_view(rs: Seq<QueryRestriction>) -> Seq<Restriction> {
    Seq::new(rs.len(), |i: int| rs[i]@)
}

/// The model of a parser result: the model of the list, or the error.
pub open spec fn result_view(res: Result<Vec<QueryRestriction>, ParseError>) -> Result<
    Seq<Restriction>,
    ParseError,
> {
    match res {
        Ok(list) => Ok(restrictions_view(list@)),
        Err(e) => Err(e),
    }
}

impl Restriction {
    /// The text a restriction carries, empty for a numeric comparison.
    pub open spec fn text(self) -> Seq<char> {
        match self {
            Restriction::Fuzzy(t) => t,
            Restriction::Comparison(_, _, _) => Seq::empty(),
            Restriction::Contains(_, t) => t,
            Restriction::SetContains(_, t) => t,
            Restriction::KeywordNameContains(t) => t,
        }
    }

    /// Whether the restriction is a free-text term.
    pub open spec fn is_fuzzy(self) -> bool {
        self is Fuzzy
    }
}

} // verus!
