use hemolymph::cards::{Card, Keyword};
use hemolymph::collection::{create_card_map, lookup, CardCollection};
use std::collections::HashMap;

fn plain_card(id: &str, name: &str) -> Card {
    Card {
        id: id.to_string(),
        name: name.to_string(),
        img: vec![],
        description: String::new(),
        cost: 0,
        health: 0,
        defense: 0,
        power: 0,
        card_type: String::new(),
        keywords: vec![],
        kins: vec![],
        abilities: vec![],
        artists: vec![],
        set: String::new(),
        legality: HashMap::new(),
        other: vec![],
        functions: vec![],
    }
}

#[test]
fn lookup_finds_the_card_or_nothing() {
    let all = create_card_map(vec![
        plain_card("card-001", "Ant"),
        plain_card("card-042", "Rat"),
        plain_card("card-100", "Bat"),
    ]);
    assert_eq!(lookup("card-042", &all).map(|c| c.name.as_str()), Some("Rat"));
    assert_eq!(lookup("card-001", &all).map(|c| c.id.as_str()), Some("card-001"));
    assert!(lookup("card-043", &all).is_none());
    assert!(lookup("", &all).is_none());
    assert!(lookup("card-042", &CardCollection::new()).is_none());
}

#[test]
fn later_card_replaces_earlier_with_same_id() {
    let all = create_card_map(vec![
        plain_card("a", "first a"),
        plain_card("b", "only b"),
        plain_card("a", "second a"),
        plain_card("c", "only c"),
        plain_card("a", "third a"),
    ]);
    assert_eq!(all.len(), 3);
    let names: Vec<&str> = all.cards().iter().map(|c| c.name.as_str()).collect();
    assert_eq!(names, vec!["third a", "only b", "only c"]);
    assert_eq!(lookup("a", &all).map(|c| c.name.as_str()), Some("third a"));
}

#[test]
fn with_card_adds_or_replaces() {
    let all = CardCollection::new().with_card(plain_card("a", "A")).with_card(plain_card("b", "B"));
    assert_eq!(all.len(), 2);
    let all = all.with_card(plain_card("a", "A2"));
    assert_eq!(all.len(), 2);
    assert_eq!(all.cards()[0].name, "A2");
    assert_eq!(all.cards()[1].name, "B");
}

#[test]
fn getters_return_the_fields() {
    let mut card = plain_card("x", "Rat");
    card.cost = 1;
    card.health = 2;
    card.power = 3;
    card.defense = 4;
    card.card_type = "Unit".to_string();
    card.kins = vec!["Beast".to_string()];
    card.keywords = vec![Keyword { name: "Flying".to_string(), data: None }];
    assert_eq!(card.get_cost(), 1);
    assert_eq!(card.get_health(), 2);
    assert_eq!(card.get_power(), 3);
    assert_eq!(card.get_defense(), 4);
    assert_eq!(card.get_name(), "Rat");
    assert_eq!(card.get_type(), "Unit");
    assert_eq!(card.get_kins(), &["Beast".to_string()][..]);
    assert_eq!(card.get_keywords().len(), 1);
    assert_eq!(card.get_keywords()[0].name, "Flying");
}

#[test]
fn clones_are_equal() {
    let mut card = plain_card("x", "Rat");
    card.keywords = vec![Keyword {
        name: "devours".to_string(),
        data: Some(hemolymph::cards::KeywordData::CardID(hemolymph::cards::CardID {
            name: Some("Prey".to_string()),
            description: Some("d".to_string()),
            keywords: Some(vec![Keyword {
                name: "k".to_string(),
                data: Some(hemolymph::cards::KeywordData::String("v".to_string())),
            }]),
            card_type: Some("Unit".to_string()),
            kins: Some(vec!["Beast".to_string()]),
            health: Some(1),
            defense: Some(2),
            power: Some(3),
            abilities: Some(vec!["a".to_string()]),
            functions: Some(vec!["f".to_string()]),
        })),
    }];
    assert_eq!(card.clone(), card);
}
