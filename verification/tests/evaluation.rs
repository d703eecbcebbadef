use hemolymph::cards::{Card, CardID, Keyword, KeywordData};
use hemolymph::collection::{create_card_map, CardCollection};
use hemolymph::eval::pattern_fits;
use hemolymph::parser::parse;
use hemolymph::query::QueryRestriction;
use std::collections::HashMap;

fn eval_card(id: &str, name: &str, kind: &str, cost: usize, power: usize) -> Card {
    Card {
        id: id.to_string(),
        name: name.to_string(),
        img: vec![],
        description: String::new(),
        cost,
        health: 1,
        defense: 0,
        power,
        card_type: kind.to_string(),
        keywords: vec![],
        kins: vec![],
        abilities: vec![],
        artists: vec![],
        set: "core".to_string(),
        legality: HashMap::new(),
        other: vec![],
        functions: vec![],
    }
}

fn empty_pattern() -> CardID {
    CardID {
        name: None,
        description: None,
        keywords: None,
        card_type: None,
        kins: None,
        health: None,
        defense: None,
        power: None,
        abilities: None,
        functions: None,
    }
}

fn passes(card: &Card, query: &str, collection: &CardCollection) -> bool {
    hemolymph::eval::matches(card, &parse(query).unwrap(), collection)
}

#[test]
fn empty_query_matches_every_card() {
    let none = CardCollection::new();
    let some = create_card_map(vec![eval_card("a", "Ant", "Unit", 1, 1)]);
    for card in [eval_card("x", "", "", 0, 0), eval_card("y", "Rat", "Unit", 3, 5)] {
        assert!(hemolymph::eval::matches(&card, &parse("").unwrap(), &none));
        assert!(hemolymph::eval::matches(&card, &parse("").unwrap(), &some));
        assert!(hemolymph::eval::matches(&card, &vec![], &some));
    }
}

#[test]
fn numeric_comparisons_on_cost_three() {
    let card = eval_card("c", "Rat", "Unit", 3, 0);
    let all = CardCollection::new();
    for q in ["cost>2", "cost>=3", "cost=3", "cost!=4", "cost<4", "cost<=3"] {
        assert!(passes(&card, q, &all), "{q} should match");
    }
    for q in ["cost>3", "cost<3", "cost=4"] {
        assert!(!passes(&card, q, &all), "{q} should not match");
    }
}

#[test]
fn each_numeric_field_is_read() {
    let mut card = eval_card("c", "Rat", "Unit", 1, 4);
    card.health = 2;
    card.defense = 3;
    let all = CardCollection::new();
    assert!(passes(&card, "cost=1 health=2 defense=3 power=4", &all));
    assert!(!passes(&card, "cost=1 health=2 defense=3 power=5", &all));
    assert!(!passes(&card, "health=1", &all));
    assert!(!passes(&card, "defense=2", &all));
}

#[test]
fn set_membership_on_kins() {
    let mut card = eval_card("c", "Rat", "Unit", 3, 0);
    card.kins = vec!["Beast".to_string(), "Undead".to_string()];
    let all = CardCollection::new();
    assert!(passes(&card, "kins:Beast", &all));
    assert!(passes(&card, "kins:Undead", &all));
    assert!(!passes(&card, "kins:Dragon", &all));
    assert!(!passes(&card, "kins:beast", &all));
    assert!(!passes(&card, "kins:Bea", &all));
}

#[test]
fn other_set_fields() {
    let mut card = eval_card("c", "Rat", "Unit", 3, 0);
    card.abilities = vec!["fly".to_string()];
    card.functions = vec!["removal".to_string()];
    card.other = vec!["promo".to_string()];
    card.artists = vec!["Ann".to_string()];
    let all = CardCollection::new();
    assert!(passes(&card, "abilities:fly functions:removal other:promo artists:Ann", &all));
    assert!(!passes(&card, "abilities:removal", &all));
    assert!(!passes(&card, "artists:Bob", &all));
}

#[test]
fn text_containment_ignores_case() {
    let mut card = eval_card("c", "Blood Rat", "Unit", 3, 0);
    card.description = "Draw a CARD.".to_string();
    let all = CardCollection::new();
    assert!(passes(&card, "name:rat", &all));
    assert!(passes(&card, "name:\"OOD R\"", &all));
    assert!(passes(&card, "type:unit", &all));
    assert!(passes(&card, "description:card", &all));
    assert!(passes(&card, "name:\"\"", &all));
    assert!(!passes(&card, "name:cat", &all));
    assert!(!passes(&card, "description:rat", &all));
}

#[test]
fn keyword_name_containment() {
    let mut card = eval_card("c", "Rat", "Unit", 3, 0);
    card.keywords = vec![
        Keyword { name: "Flying".to_string(), data: None },
        Keyword { name: "Venom".to_string(), data: Some(KeywordData::String("2".to_string())) },
    ];
    let all = CardCollection::new();
    assert!(passes(&card, "keyword:fly", &all));
    assert!(passes(&card, "keyword:VENOM", &all));
    assert!(!passes(&card, "keyword:haste", &all));
}

#[test]
fn fuzzy_term_looks_at_searchable_fields() {
    let mut card = eval_card("c", "Blood Rat", "Unit", 3, 0);
    card.description = "Bites".to_string();
    card.kins = vec!["Beast".to_string()];
    card.keywords = vec![Keyword { name: "Flying".to_string(), data: None }];
    let all = CardCollection::new();
    for q in ["blood", "unit", "bites", "beas", "flyi", "\"d r\""] {
        assert!(passes(&card, q, &all), "{q} should match");
    }
    assert!(!passes(&card, "dragon", &all));
    assert!(!passes(&card, "blood dragon", &all));
}

#[test]
fn restrictions_combine_with_and() {
    let card = eval_card("c", "Rat", "Unit", 3, 5);
    let all = CardCollection::new();
    assert!(passes(&card, "cost=3 power=5 name:rat", &all));
    assert!(!passes(&card, "cost=3 power=4 name:rat", &all));
    assert!(!passes(&card, "cost=2 power=5", &all));
}

#[test]
fn adding_a_restriction_never_adds_matches() {
    let cards = vec![
        eval_card("a", "Rat", "Unit", 1, 1),
        eval_card("b", "Bat", "Unit", 2, 5),
        eval_card("c", "Cat", "Command", 3, 0),
    ];
    let all = create_card_map(cards);
    let base = parse("type:unit").unwrap();
    let extras = parse("cost>1 name:at power=5 rat").unwrap();
    for extra in extras {
        for at in 0..=base.len() {
            let mut longer: Vec<QueryRestriction> = base.clone();
            longer.insert(at, extra.clone());
            for card in all.cards() {
                if hemolymph::eval::matches(card, &longer, &all) {
                    assert!(hemolymph::eval::matches(card, &base, &all));
                }
            }
        }
    }
}

#[test]
fn pattern_keyword_needs_another_card_that_fits() {
    let mut pattern = empty_pattern();
    pattern.card_type = Some("Unit".to_string());
    pattern.power = Some(5);
    let mut bearer = eval_card("bearer", "Devourer", "Unit", 4, 5);
    bearer.keywords =
        vec![Keyword { name: "devours".to_string(), data: Some(KeywordData::CardID(pattern)) }];

    let alone = create_card_map(vec![bearer.clone()]);
    assert!(!passes(&bearer, "keyword:devours", &alone));

    let with_wrong = create_card_map(vec![
        bearer.clone(),
        eval_card("w1", "Weak", "Unit", 1, 4),
        eval_card("w2", "Order", "Command", 1, 5),
        eval_card("w3", "Token", "Unit Token", 1, 5),
    ]);
    assert!(!passes(&bearer, "keyword:devours", &with_wrong));

    let with_prey = create_card_map(vec![
        bearer.clone(),
        eval_card("w1", "Weak", "Unit", 1, 4),
        eval_card("prey", "Prey", "Unit", 2, 5),
    ]);
    assert!(passes(&bearer, "keyword:devours", &with_prey));
    assert!(!passes(&bearer, "keyword:flying", &with_prey));
}

#[test]
fn pattern_resolution_is_one_level_deep() {
    let mut inner = empty_pattern();
    inner.name = Some("Nobody".to_string());
    let mut prey = eval_card("prey", "Prey", "Unit", 2, 5);
    prey.keywords =
        vec![Keyword { name: "hunts".to_string(), data: Some(KeywordData::CardID(inner)) }];

    let mut pattern = empty_pattern();
    pattern.keywords = Some(vec![Keyword { name: "hunts".to_string(), data: None }]);
    let mut bearer = eval_card("bearer", "Devourer", "Unit", 4, 5);
    bearer.keywords =
        vec![Keyword { name: "devours".to_string(), data: Some(KeywordData::CardID(pattern)) }];

    let all = create_card_map(vec![bearer.clone(), prey.clone()]);
    assert!(passes(&bearer, "keyword:devours", &all));
    assert!(!passes(&prey, "keyword:hunts", &all));
}

#[test]
fn pattern_fields_constrain() {
    let mut card = eval_card("c", "Blood Rat", "Unit", 3, 5);
    card.description = "Bites hard".to_string();
    card.health = 2;
    card.defense = 1;
    card.kins = vec!["Beast".to_string(), "Undead".to_string()];
    card.abilities = vec!["fly".to_string()];
    card.functions = vec!["removal".to_string()];
    card.keywords = vec![Keyword { name: "Flying".to_string(), data: None }];

    assert!(pattern_fits(&empty_pattern(), &card));

    let mut p = empty_pattern();
    p.name = Some("Blood Rat".to_string());
    p.card_type = Some("Unit".to_string());
    p.description = Some("BITES".to_string());
    p.health = Some(2);
    p.defense = Some(1);
    p.power = Some(5);
    p.kins = Some(vec!["Undead".to_string(), "Beast".to_string()]);
    p.abilities = Some(vec!["fly".to_string()]);
    p.functions = Some(vec![]);
    p.keywords = Some(vec![Keyword { name: "fly".to_string(), data: None }]);
    assert!(pattern_fits(&p, &card));

    let mut q = p.clone();
    q.name = Some("Rat".to_string());
    assert!(!pattern_fits(&q, &card));
    let mut q = p.clone();
    q.card_type = Some("unit".to_string());
    assert!(!pattern_fits(&q, &card));
    let mut q = p.clone();
    q.description = Some("soft".to_string());
    assert!(!pattern_fits(&q, &card));
    let mut q = p.clone();
    q.health = Some(3);
    assert!(!pattern_fits(&q, &card));
    let mut q = p.clone();
    q.defense = Some(0);
    assert!(!pattern_fits(&q, &card));
    let mut q = p.clone();
    q.kins = Some(vec!["Beast".to_string(), "Dragon".to_string()]);
    assert!(!pattern_fits(&q, &card));
    let mut q = p.clone();
    q.abilities = Some(vec!["swim".to_string()]);
    assert!(!pattern_fits(&q, &card));
    let mut q = p.clone();
    q.functions = Some(vec!["ramp".to_string()]);
    assert!(!pattern_fits(&q, &card));
    let mut q = p.clone();
    q.keywords = Some(vec![Keyword { name: "haste".to_string(), data: None }]);
    assert!(!pattern_fits(&q, &card));
}
