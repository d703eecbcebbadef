use hemolymph::parser::parse;
use hemolymph::query::{Comparator, NumberField, ParseError, QueryRestriction, SetField, TextField};
use hemolymph::render::render;

fn fuzzy(text: &str) -> QueryRestriction {
    QueryRestriction::Fuzzy(text.to_string())
}

#[test]
fn empty_query_gives_empty_list() {
    assert_eq!(parse(""), Ok(vec![]));
    assert_eq!(parse("  \t \n"), Ok(vec![]));
}

#[test]
fn parsing_twice_gives_the_same_list() {
    let q = "cost>2 kins:Beast \"free text\" name:rat";
    assert_eq!(parse(q), parse(q));
    assert_eq!(parse("wisdom>3"), parse("wisdom>3"));
}

#[test]
fn words_become_fuzzy_terms_in_order() {
    assert_eq!(parse("blood  rat"), Ok(vec![fuzzy("blood"), fuzzy("rat")]));
}

#[test]
fn quoted_segment_is_one_token() {
    assert_eq!(parse("\"blood rat\" ant"), Ok(vec![fuzzy("blood rat"), fuzzy("ant")]));
    assert_eq!(parse("\"\""), Ok(vec![fuzzy("")]));
    assert_eq!(parse("\"cost>3\""), Ok(vec![fuzzy("cost>3")]));
    assert_eq!(parse("\"open to the end"), Ok(vec![fuzzy("open to the end")]));
    assert_eq!(parse("ab\"c d\"e"), Ok(vec![fuzzy("abc de")]));
}

#[test]
fn every_operator_on_a_numeric_field() {
    let expect = |op| Ok(vec![QueryRestriction::Comparison(NumberField::Cost, op, 3)]);
    assert_eq!(parse("cost>3"), expect(Comparator::Greater));
    assert_eq!(parse("cost<3"), expect(Comparator::Less));
    assert_eq!(parse("cost=3"), expect(Comparator::Equal));
    assert_eq!(parse("cost!=3"), expect(Comparator::NotEqual));
    assert_eq!(parse("cost>=3"), expect(Comparator::GreaterOrEqual));
    assert_eq!(parse("cost<=3"), expect(Comparator::LessOrEqual));
    assert_eq!(parse("cost:3"), expect(Comparator::Equal));
}

#[test]
fn every_numeric_field() {
    assert_eq!(
        parse("health>=10 defense<2 power=007"),
        Ok(vec![
            QueryRestriction::Comparison(NumberField::Health, Comparator::GreaterOrEqual, 10),
            QueryRestriction::Comparison(NumberField::Defense, Comparator::Less, 2),
            QueryRestriction::Comparison(NumberField::Power, Comparator::Equal, 7),
        ])
    );
}

#[test]
fn text_fields_test_containment() {
    assert_eq!(
        parse("name:rat type=Unit description:\"draw a card\""),
        Ok(vec![
            QueryRestriction::Contains(TextField::Name, "rat".to_string()),
            QueryRestriction::Contains(TextField::Type, "Unit".to_string()),
            QueryRestriction::Contains(TextField::Description, "draw a card".to_string()),
        ])
    );
}

#[test]
fn set_fields_and_keyword() {
    assert_eq!(
        parse("kins:Beast abilities:fly functions:removal other:promo artists:Ann keyword:devours"),
        Ok(vec![
            QueryRestriction::SetContains(SetField::Kins, "Beast".to_string()),
            QueryRestriction::SetContains(SetField::Abilities, "fly".to_string()),
            QueryRestriction::SetContains(SetField::Functions, "removal".to_string()),
            QueryRestriction::SetContains(SetField::Other, "promo".to_string()),
            QueryRestriction::SetContains(SetField::Artists, "Ann".to_string()),
            QueryRestriction::KeywordNameContains("devours".to_string()),
        ])
    );
}

#[test]
fn unknown_field_rejected() {
    assert_eq!(parse("wisdom>3"), Err(ParseError::UnknownField));
    assert_eq!(parse("wisdom:3"), Err(ParseError::UnknownField));
    assert_eq!(parse(":3"), Err(ParseError::UnknownField));
    assert_eq!(parse("kins>3"), Err(ParseError::UnknownField));
    assert_eq!(parse("keyword=x"), Err(ParseError::UnknownField));
    assert_eq!(parse("Cost>3"), Err(ParseError::UnknownField));
}

#[test]
fn invalid_number_rejected() {
    assert_eq!(parse("cost>abc"), Err(ParseError::InvalidNumber));
    assert_eq!(parse("cost>"), Err(ParseError::InvalidNumber));
    assert_eq!(parse("cost>-1"), Err(ParseError::InvalidNumber));
    assert_eq!(parse("cost==3"), Err(ParseError::InvalidNumber));
    assert_eq!(parse("power:3x"), Err(ParseError::InvalidNumber));
    assert_eq!(
        parse("cost=99999999999999999999999999999999999999999"),
        Err(ParseError::InvalidNumber)
    );
}

#[test]
fn largest_number_is_accepted() {
    let q = format!("cost={}", usize::MAX);
    assert_eq!(
        parse(&q),
        Ok(vec![QueryRestriction::Comparison(NumberField::Cost, Comparator::Equal, usize::MAX)])
    );
}

#[test]
fn first_error_wins() {
    assert_eq!(parse("cost>x wisdom:1"), Err(ParseError::InvalidNumber));
    assert_eq!(parse("wisdom:1 cost>x"), Err(ParseError::UnknownField));
    assert_eq!(parse("rat cost>x"), Err(ParseError::InvalidNumber));
}

#[test]
fn lone_exclamation_mark_is_text() {
    assert_eq!(parse("wow!"), Ok(vec![fuzzy("wow!")]));
    assert_eq!(
        parse("name:wow!"),
        Ok(vec![QueryRestriction::Contains(TextField::Name, "wow!".to_string())])
    );
}

#[test]
fn render_writes_canonical_text() {
    let list = vec![
        fuzzy("blood rat"),
        QueryRestriction::Comparison(NumberField::Cost, Comparator::GreaterOrEqual, 30),
        QueryRestriction::Comparison(NumberField::Power, Comparator::NotEqual, 0),
        QueryRestriction::Contains(TextField::Name, "rat".to_string()),
        QueryRestriction::SetContains(SetField::Kins, "Beast".to_string()),
        QueryRestriction::KeywordNameContains("devours".to_string()),
    ];
    assert_eq!(
        render(&list),
        "\"blood rat\" cost>=30 power!=0 name:\"rat\" kins:\"Beast\" keyword:\"devours\""
    );
    assert_eq!(render(&vec![]), "");
}

#[test]
fn render_then_parse_gives_the_list_back() {
    let queries = [
        "",
        "rat",
        "cost>2 cost>=3 cost=3 cost!=4 cost<4 cost<=3",
        "\"two words\"  name:\"a b\" kins:Beast keyword:dev type=Unit",
        "health:12 \"\" x:\"",
    ];
    for q in queries {
        if let Ok(list) = parse(q) {
            let text = render(&list);
            assert_eq!(parse(&text), Ok(list));
        }
    }
    assert_eq!(parse("rat \"a b\"").map(|l| render(&l)), Ok("\"rat\" \"a b\"".to_string()));
}
