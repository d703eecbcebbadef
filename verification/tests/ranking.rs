use hemolymph::cards::{Card, Keyword};
use hemolymph::collection::create_card_map;
use hemolymph::rank::{rank, ranking, score};
use hemolymph::search::{fuzzy_search, respond, search, QueryParams, QueryResult};
use hemolymph::query::ParseError;
use hemolymph::similarity::similarity_of;
use std::collections::HashMap;

fn ranked_card(id: &str, name: &str, kind: &str, description: &str) -> Card {
    Card {
        id: id.to_string(),
        name: name.to_string(),
        img: vec![],
        description: description.to_string(),
        cost: 2,
        health: 0,
        defense: 0,
        power: 0,
        card_type: kind.to_string(),
        keywords: vec![],
        kins: vec![],
        abilities: vec![],
        artists: vec![],
        set: String::new(),
        legality: HashMap::new(),
        other: vec![],
        functions: vec![],
    }
}

fn sim(text: &str, query: &str) -> u64 {
    similarity_of(&text.chars().collect(), &query.chars().collect())
}

#[test]
fn similarity_counts_shared_trigrams() {
    assert_eq!(sim("Rat", "Rat"), 1_000_000);
    assert_eq!(sim("abc", "abd"), 500_000);
    assert_eq!(sim("abc", "xyz"), 0);
    assert_eq!(sim("", ""), 0);
    assert_eq!(sim("", "abc"), 0);
    assert_eq!(sim("", " a"), 0);
    assert_eq!(sim("", "a   b"), 0);
    assert_eq!(sim(" ", " a"), 1_000_000);
    assert_eq!(sim(" ", "a"), 0);
    assert_eq!(sim("abc", ""), 0);
    assert_eq!(sim("ab", "abc"), 666_666);
    assert_eq!(sim("abc", "ab"), 500_000);
    assert_eq!(sim("rat", "Rat"), 250_000);
}

#[test]
fn score_weighs_the_fields() {
    let name_only = ranked_card("a", "abc", "x", "y");
    assert_eq!(score(&name_only, "abc"), 20_000_000);
    let type_only = ranked_card("a", "x", "abc", "y");
    assert_eq!(score(&type_only, "abc"), 18_000_000);
    let description_only = ranked_card("a", "x", "y", "abc");
    assert_eq!(score(&description_only, "abc"), 16_000_000);
    let mut kin = ranked_card("a", "x", "y", "z");
    kin.kins = vec!["abd".to_string(), "abc".to_string(), "q".to_string()];
    assert_eq!(score(&kin, "abc"), 15_000_000);
    let mut keyword = ranked_card("a", "x", "y", "z");
    keyword.keywords = vec![
        Keyword { name: "abd".to_string(), data: None },
        Keyword { name: "zzz".to_string(), data: None },
    ];
    assert_eq!(score(&keyword, "abc"), 12 * 500_000);
    let everything = {
        let mut c = ranked_card("a", "abc", "abc", "abc");
        c.kins = vec!["abc".to_string()];
        c.keywords = vec![Keyword { name: "abc".to_string(), data: None }];
        c
    };
    assert_eq!(score(&everything, "abc"), 81_000_000);
    assert_eq!(score(&ranked_card("a", "x", "y", "z"), "abc"), 0);
}

#[test]
fn exact_name_outranks_unrelated_card() {
    let exact = ranked_card("a", "Blood Rat", "Unit", "Bites");
    let unrelated = ranked_card("b", "xyz", "qqq", "www");
    assert!(score(&exact, "Blood Rat") > score(&unrelated, "Blood Rat"));
    assert_eq!(score(&unrelated, "Blood Rat"), 0);
}

#[test]
fn empty_fields_add_nothing_to_the_score() {
    let exact = ranked_card("a", " a", "zz", "zz");
    let unrelated = ranked_card("b", "x", "", "");
    assert_eq!(score(&exact, " a"), 20_000_000);
    assert_eq!(score(&unrelated, " a"), 0);
    let input = vec![&unrelated, &exact];
    let out = rank(&input, " a");
    let ids: Vec<&str> = out.iter().map(|c| c.id.as_str()).collect();
    assert_eq!(ids, vec!["a", "b"]);
    assert_eq!(score(&ranked_card("c", "", "", ""), ""), 0);
}

#[test]
fn one_word_name_outranks_card_of_other_characters() {
    let exact = ranked_card("a", "Rat", "Unit", "Bites");
    let mut unrelated = ranked_card("b", "Egg", "BOX", "i like u");
    unrelated.kins = vec!["x y".to_string(), String::new()];
    unrelated.keywords = vec![Keyword { name: "go".to_string(), data: None }];
    assert_eq!(score(&unrelated, "Rat"), 0);
    assert_eq!(score(&exact, "Rat"), 20_000_000);
}

#[test]
fn ranking_orders_by_score_and_keeps_ties() {
    assert_eq!(ranking(&vec![]), Vec::<usize>::new());
    assert_eq!(ranking(&vec![7]), vec![0]);
    assert_eq!(ranking(&vec![1, 5, 3, 5, 1, 9]), vec![5, 1, 3, 2, 0, 4]);
    assert_eq!(ranking(&vec![4, 4, 4]), vec![0, 1, 2]);
    assert_eq!(ranking(&vec![1, 2, 3]), vec![2, 1, 0]);
}

#[test]
fn rank_orders_cards_by_descending_score() {
    let a = ranked_card("a", "xyz", "q", "w");
    let b = ranked_card("b", "abd", "q", "w");
    let c = ranked_card("c", "abc", "q", "w");
    let d = ranked_card("d", "abd", "q", "w");
    let input = vec![&a, &b, &c, &d];
    let out = rank(&input, "abc");
    let ids: Vec<&str> = out.iter().map(|c| c.id.as_str()).collect();
    assert_eq!(ids, vec!["c", "b", "d", "a"]);
}

#[test]
fn search_filters_then_ranks() {
    let all = create_card_map(vec![
        ranked_card("1", "Rat King", "Unit", ""),
        ranked_card("2", "Bat", "Unit", ""),
        ranked_card("3", "Rat", "Unit", ""),
        ranked_card("4", "Pirate", "Command", ""),
    ]);
    let found = search("rat", &all).unwrap();
    let ids: Vec<&str> = found.iter().map(|c| c.id.as_str()).collect();
    assert_eq!(ids, vec!["3", "4", "1"]);
    assert_eq!(score(&all.cards()[2], "rat"), 20 * 250_000);
    assert_eq!(score(&all.cards()[3], "rat"), 20 * 142_857);
    assert_eq!(score(&all.cards()[0], "rat"), 20 * 111_111);

    let found = search("Rat type:unit", &all).unwrap();
    let ids: Vec<&str> = found.iter().map(|c| c.id.as_str()).collect();
    assert_eq!(ids, vec!["3", "1"]);
}

#[test]
fn structural_query_keeps_collection_order() {
    let mut cheap = ranked_card("3", "Ant", "Unit", "");
    cheap.cost = 1;
    let all = create_card_map(vec![
        ranked_card("1", "Rat", "Unit", ""),
        cheap,
        ranked_card("2", "Bat", "Command", ""),
        ranked_card("4", "Cat", "Unit", ""),
    ]);
    let ids = |q: &str| -> Vec<String> {
        search(q, &all).unwrap().iter().map(|c| c.id.clone()).collect()
    };
    assert_eq!(ids(""), vec!["1", "3", "2", "4"]);
    assert_eq!(ids("type:unit"), vec!["1", "3", "4"]);
    assert_eq!(ids("type:unit cost>1"), vec!["1", "4"]);
    assert_eq!(ids("cost>5"), Vec::<String>::new());
}

#[test]
fn text_added_behind_a_query_finds_no_more() {
    let mut rat = ranked_card("1", "Rat", "Unit", "bites");
    rat.kins = vec!["Beast".to_string()];
    let mut king = ranked_card("2", "Rat King", "Unit", "rules");
    king.cost = 5;
    let all = create_card_map(vec![
        rat,
        king,
        ranked_card("3", "Bat", "Command", "flies"),
        ranked_card("4", "Pirate", "Unit", ""),
    ]);
    let queries = ["", "rat", "type:unit", "cost>1 \"a t\"", "name:\"rat\"  "];
    let added = ["rat", "cost>=5", "kins:Beast", "type:unit description:\"\"", "", "\"at k\""];
    for q in queries {
        let found: Vec<String> = search(q, &all).unwrap().iter().map(|c| c.id.clone()).collect();
        for more in added {
            let longer = format!("{q} {more}");
            let fewer: Vec<String> =
                search(&longer, &all).unwrap().iter().map(|c| c.id.clone()).collect();
            assert!(fewer.len() <= found.len(), "{longer}");
            for id in &fewer {
                assert!(found.contains(id), "{longer}");
            }
        }
    }
}

#[test]
fn search_reports_parse_errors() {
    let all = create_card_map(vec![ranked_card("1", "Rat", "Unit", "")]);
    assert_eq!(search("wisdom>3", &all), Err(ParseError::UnknownField));
    assert_eq!(search("rat cost>x", &all), Err(ParseError::InvalidNumber));
}

#[test]
fn respond_echoes_the_query_or_reports_the_error() {
    let all = create_card_map(vec![
        ranked_card("1", "Rat", "Unit", ""),
        ranked_card("2", "Bat", "Command", ""),
    ]);
    let ask = |q: Option<&str>| QueryParams { query: q.map(|s| s.to_string()), cost: None };
    match respond(&ask(Some("type:unit  cost>=2")), &all) {
        QueryResult::CardList { query_text, content } => {
            assert_eq!(query_text, "type:\"unit\" cost>=2");
            assert_eq!(content.len(), 1);
            assert_eq!(content[0].id, "1");
        },
        QueryResult::Error { message } => panic!("{message}"),
    }
    match respond(&ask(None), &all) {
        QueryResult::CardList { query_text, content } => {
            assert_eq!(query_text, "");
            assert_eq!(content.len(), 2);
        },
        QueryResult::Error { message } => panic!("{message}"),
    }
    assert_eq!(
        respond(&ask(Some("wisdom>3")), &all),
        QueryResult::Error { message: "Query couldn't be parsed: UnknownField".to_string() }
    );
    assert_eq!(
        respond(&ask(Some("cost>many")), &all),
        QueryResult::Error { message: "Query couldn't be parsed: InvalidNumber".to_string() }
    );
}

#[test]
fn fuzzy_search_reads_name_and_description() {
    let card = ranked_card("1", "Blood Rat", "Unit", "Bites HARD");
    let ask = |q: Option<&str>| QueryParams { query: q.map(|s| s.to_string()), cost: None };
    assert!(fuzzy_search(&card, &ask(Some("rat"))));
    assert!(fuzzy_search(&card, &ask(Some("hard"))));
    assert!(fuzzy_search(&card, &ask(Some("BLOOD"))));
    assert!(fuzzy_search(&card, &ask(Some(""))));
    assert!(fuzzy_search(&ranked_card("2", "", "", ""), &ask(Some(""))));
    assert!(!fuzzy_search(&ranked_card("2", "", "", ""), &ask(Some("a"))));
    assert!(!fuzzy_search(&card, &ask(Some("unit"))));
    assert!(!fuzzy_search(&card, &ask(None)));
}
